//! Saving and loading the level's materials.
//!
//! A saved level is a JSON object with the one field `map`: an object whose
//! keys are the texts of the occupied cells and whose values are the names of
//! their materials, such as `{"map":{"0,0":"GRASS_GREEN"}}`.

use crate::cell::{lemma_take_next, Cell, CellMap};
use crate::editing::HoveringBlock;
use crate::keys::{cell_text, key_text, lemma_cell_text_round_trip, parse_key, text_cell};
use crate::level::{Level, LevelView};
use crate::tiles::{lemma_name_round_trip, Material};
use serde_json::Value;
use std::collections::BTreeMap;
use vstd::prelude::*;

verus! {

/// Where the level is saved, relative to the directory the program runs in.
pub const LEVEL_PATH: &'static str = "assets/level.json";

/// Why a saved level could not be loaded.
#[derive(Clone, Copy, Debug, PartialEq, Eq)]
pub enum LoadError {
    /// The text is not a JSON object, or its field `map` is not an object of
    /// strings.
    Syntax,
    /// The document has no field `map`.
    MissingMap,
    /// A key is not the text of a cell.
    InvalidKey,
    /// A value is not the name of a material.
    UnknownMaterial,
}

/// `serde_json::Error`, the error that the JSON library reports. It is
/// carried through as it comes; nothing is claimed of what it holds.
#[verifier::external_type_specification]
#[verifier::external_body]
pub struct ExJsonError(serde_json::Error);

/// A list of key and value strings as plain text.
pub open spec fn entries_view(entries: Seq<(String, String)>) -> Seq<(Seq<char>, Seq<char>)> {
    entries.map_values(|e: (String, String)| (e.0@, e.1@))
}

/// A list of keys, each with the string that is its value, or with nothing
/// where its value is no string, as plain text.
pub open spec fn values_view(values: Seq<(String, Option<String>)>) -> Seq<
    (Seq<char>, Option<Seq<char>>),
> {
    values.map_values(
        |e: (String, Option<String>)|
            (
                e.0@,
                match e.1 {
                    Some(name) => Some(name@),
                    None => None,
                },
            ),
    )
}

/// The fields of a document, each with the entries of the object that is its
/// value, or with nothing where its value is no object, as plain text.
pub open spec fn fields_view(
    fields: Seq<(String, Option<Vec<(String, Option<String>)>>)>,
) -> Seq<(Seq<char>, Option<Seq<(Seq<char>, Option<Seq<char>>)>>)> {
    fields.map_values(
        |f: (String, Option<Vec<(String, Option<String>)>>)|
            (
                f.0@,
                match f.1 {
                    Some(values) => Some(values_view(values@)),
                    None => None,
                },
            ),
    )
}

/// The mapping that holds each entry of a list. Where a key occurs twice in
/// the list, the later entry counts.
pub open spec fn entries_map(entries: Seq<(Seq<char>, Seq<char>)>) -> Map<Seq<char>, Seq<char>>
    decreases entries.len(),
{
    if entries.len() == 0 {
        Map::empty()
    } else {
        entries_map(entries.drop_last()).insert(entries.last().0, entries.last().1)
    }
}

/// The compact JSON text of a document with the one field `field`, which
/// holds the mapping `entries`; `None` where the JSON library reports an
/// error.
pub uninterp spec fn document_text(field: Seq<char>, entries: Map<Seq<char>, Seq<char>>) -> Option<
    Seq<char>,
>;

/// The fields of the JSON object `text` as the JSON library reads them: each
/// field with the entries of its value where that is an object, each entry
/// with its value where that is a string. `None` where the library reports
/// an error, as it does for a text that is no JSON object.
pub uninterp spec fn parsed_document(text: Seq<char>) -> Option<
    Seq<(Seq<char>, Option<Seq<(Seq<char>, Option<Seq<char>>)>>)>,
>;

/// Calls `serde_json::to_string` on a map with the one key `field`, whose
/// value is the map that holds each entry of `entries`. No key may occur
/// twice in `entries`, so the map holds the entries one for one. The
/// contract claims only that the outcome is a function of that field name
/// and that map: the text where the call succeeds, nothing where it reports
/// an error.
#[verifier::external_body]
fn encode_document(field: &str, entries: &Vec<(String, String)>) -> (r: Result<
    String,
    serde_json::Error,
>)
    requires
        entry_keys(entries_view(entries@)).no_duplicates(),
    ensures
        document_text(field@, entries_map(entries_view(entries@))) == (match r {
            Ok(text) => Some(text@),
            Err(_) => None,
        }),
{
    let inner: BTreeMap<&str, &str> = entries.iter().map(|e| (e.0.as_str(), e.1.as_str())).collect();
    let mut document: BTreeMap<&str, BTreeMap<&str, &str>> = BTreeMap::new();
    document.insert(field, inner);
    serde_json::to_string(&document)
}

/// Calls `serde_json::from_str` for a map from strings to JSON values, and
/// lists what it returns: of a value that is an object its entries, of an
/// entry's value that is a string the string. The contract claims only that
/// the outcome is a function of the text: that list where the call succeeds,
/// nothing where it reports an error.
#[verifier::external_body]
fn decode_document(text: &str) -> (r: Result<
    Vec<(String, Option<Vec<(String, Option<String>)>>)>,
    serde_json::Error,
>)
    ensures
        parsed_document(text@) == (match r {
            Ok(fields) => Some(fields_view(fields@)),
            Err(_) => None,
        }),
{
    let parsed: Result<BTreeMap<String, Value>, serde_json::Error> = serde_json::from_str(text);
    parsed.map(|document| document.into_iter().map(|f| (f.0, match f.1 {
        Value::Object(entries) => Some(entries.into_iter().map(|e| (e.0, match e.1 {
            Value::String(name) => Some(name),
            _ => None,
        })).collect()),
        _ => None,
    })).collect())
}

/// The materials that a list of entries stands for. The first entry whose
/// key is no cell or whose value is no material decides the error. Of two
/// entries for the same cell the later one counts.
pub open spec fn decoded(entries: Seq<(Seq<char>, Seq<char>)>) -> Result<
    Map<Cell, Material>,
    LoadError,
>
    decreases entries.len(),
{
    if entries.len() == 0 {
        Ok(Map::empty())
    } else {
        match decoded(entries.drop_last()) {
            Err(e) => Err(e),
            Ok(grid) => match text_cell(entries.last().0) {
                None => Err(LoadError::InvalidKey),
                Some(cell) => match Material::named(entries.last().1) {
                    None => Err(LoadError::UnknownMaterial),
                    Some(material) => Ok(grid.insert(cell, material)),
                },
            },
        }
    }
}

/// The entries under which materials are saved: for each occupied cell its
/// text, with the name of its material.
pub open spec fn saved_entries(grid: Map<Cell, Material>) -> Map<Seq<char>, Seq<char>> {
    Map::new(
        |key: Seq<char>|
            text_cell(key) matches Some(cell) && grid.contains_key(cell) && cell_text(cell) == key,
        |key: Seq<char>| grid[text_cell(key).unwrap()].tag(),
    )
}

/// The value of the first field called `name`, if there is one.
pub open spec fn field_value(
    fields: Seq<(Seq<char>, Option<Seq<(Seq<char>, Option<Seq<char>>)>>)>,
    name: Seq<char>,
) -> Option<Option<Seq<(Seq<char>, Option<Seq<char>>)>>>
    decreases fields.len(),
{
    if fields.len() == 0 {
        None
    } else if fields[0].0 == name {
        Some(fields[0].1)
    } else {
        field_value(fields.drop_first(), name)
    }
}

/// The entries of an object whose values are all strings; `None` where one
/// of them is no string.
pub open spec fn string_entries(values: Seq<(Seq<char>, Option<Seq<char>>)>) -> Option<
    Seq<(Seq<char>, Seq<char>)>,
> {
    if forall|i: int| 0 <= i < values.len() ==> (#[trigger] values[i]).1 is Some {
        Some(values.map_values(|e: (Seq<char>, Option<Seq<char>>)| (e.0, e.1.unwrap())))
    } else {
        None
    }
}

/// The materials that the fields of a document stand for: those under the
/// field `map`, which has to be an object of strings. Other fields count for
/// nothing, whatever they hold.
pub open spec fn loaded_fields(
    fields: Seq<(Seq<char>, Option<Seq<(Seq<char>, Option<Seq<char>>)>>)>,
) -> Result<Map<Cell, Material>, LoadError> {
    match field_value(fields, "map"@) {
        None => Err(LoadError::MissingMap),
        Some(None) => Err(LoadError::Syntax),
        Some(Some(values)) => match string_entries(values) {
            None => Err(LoadError::Syntax),
            Some(entries) => decoded(entries),
        },
    }
}

/// The materials that a saved text stands for.
pub open spec fn loaded(text: Seq<char>) -> Result<Map<Cell, Material>, LoadError> {
    match parsed_document(text) {
        None => Err(LoadError::Syntax),
        Some(fields) => loaded_fields(fields),
    }
}

/// The text under which materials are saved; empty where the JSON library
/// reports an error.
pub open spec fn saved_text(grid: Map<Cell, Material>) -> Seq<char> {
    match document_text("map"@, saved_entries(grid)) {
        Some(text) => text,
        None => Seq::empty(),
    }
}

proof fn lemma_decoded_error_stays(entries: Seq<(Seq<char>, Seq<char>)>, upto: int)
    requires
        0 <= upto <= entries.len(),
        decoded(entries.take(upto)) is Err,
    ensures
        decoded(entries) == decoded(entries.take(upto)),
    decreases entries.len(),
{
    if upto == entries.len() {
        assert(entries.take(upto) =~= entries);
    } else {
        assert(entries.drop_last().take(upto) =~= entries.take(upto));
        lemma_decoded_error_stays(entries.drop_last(), upto);
    }
}

/// The keys of a list of entries.
pub open spec fn entry_keys(entries: Seq<(Seq<char>, Seq<char>)>) -> Seq<Seq<char>> {
    entries.map_values(|e: (Seq<char>, Seq<char>)| e.0)
}

proof fn lemma_entries_map_keys(entries: Seq<(Seq<char>, Seq<char>)>, key: Seq<char>)
    ensures
        entries_map(entries).contains_key(key) <==> entry_keys(entries).contains(key),
    decreases entries.len(),
{
    let keys = entry_keys(entries);
    if entries.len() > 0 {
        let rest = entries.drop_last();
        lemma_entries_map_keys(rest, key);
        assert(entry_keys(rest) =~= keys.drop_last());
        if keys.contains(key) {
            let i = choose|i: int| 0 <= i < keys.len() && keys[i] == key;
            if i < keys.len() - 1 {
                assert(keys.drop_last()[i] == key);
            }
        }
        if keys.drop_last().contains(key) {
            let i = choose|i: int| 0 <= i < keys.len() - 1 && keys.drop_last()[i] == key;
            assert(keys[i] == key);
        }
        if entries.last().0 == key {
            assert(keys[keys.len() - 1] == key);
        }
    }
}

/// Saved entries are loaded back as the materials they were saved from, in
/// whatever order they come: a list that holds each entry of `grid` once
/// stands for `grid`.
pub proof fn lemma_saved_entries_load_back(
    grid: Map<Cell, Material>,
    entries: Seq<(Seq<char>, Seq<char>)>,
)
    requires
        entry_keys(entries).no_duplicates(),
        entries_map(entries) == saved_entries(grid),
    ensures
        decoded(entries) == Ok::<Map<Cell, Material>, LoadError>(grid),
    decreases entries.len(),
{
    if entries.len() == 0 {
        assert forall|cell: Cell| !grid.contains_key(cell) by {
            lemma_cell_text_round_trip(cell);
            assert(!saved_entries(grid).contains_key(cell_text(cell)));
        }
        assert(grid =~= Map::<Cell, Material>::empty());
    } else {
        let rest = entries.drop_last();
        let key = entries.last().0;
        let keys = entry_keys(entries);
        assert(saved_entries(grid).contains_key(key));
        let cell = text_cell(key).unwrap();
        let less = grid.remove(cell);
        assert(entry_keys(rest) =~= keys.drop_last());
        assert(keys[keys.len() - 1] == key);
        lemma_entries_map_keys(rest, key);
        assert(!entry_keys(rest).contains(key)) by {
            if entry_keys(rest).contains(key) {
                let i = choose|i: int| 0 <= i < keys.len() - 1 && keys.drop_last()[i] == key;
                assert(keys[i] == keys[keys.len() - 1]);
            }
        }
        assert(entries_map(rest) =~= saved_entries(less)) by {
            assert forall|k: Seq<char>|
                entries_map(rest).contains_key(k) == saved_entries(less).contains_key(k) by {
                if k != key {
                    assert(entries_map(entries).contains_key(k) == entries_map(rest).contains_key(
                        k,
                    ));
                }
            }
            assert forall|k: Seq<char>| entries_map(rest).contains_key(k) implies entries_map(
                rest,
            )[k] == saved_entries(less)[k] by {
                assert(entries_map(entries)[k] == entries_map(rest)[k]);
            }
        }
        assert(entry_keys(rest).no_duplicates());
        lemma_saved_entries_load_back(less, rest);
        lemma_name_round_trip(grid[cell]);
        assert(entries.last().1 == entries_map(entries)[key]);
        assert(entries.last().1 == grid[cell].tag());
        assert(less.insert(cell, grid[cell]) =~= grid);
    }
}

/// Turns materials into the list of entries that is saved: for each occupied
/// cell its text and the name of its material, in no particular order.
pub fn serialize(map: &CellMap<Material>) -> (string_map: Vec<(String, String)>)
    ensures
        string_map@.len() == map@.dom().len(),
        entry_keys(entries_view(string_map@)).no_duplicates(),
        entries_map(entries_view(string_map@)) == saved_entries(map@),
        decoded(entries_view(string_map@)) == Ok::<Map<Cell, Material>, LoadError>(map@),
{
    let cells = map.cells();
    proof {
        cells@.unique_seq_to_set();
    }
    let mut string_map: Vec<(String, String)> = Vec::new();
    let mut i: usize = 0;
    assert(entries_map(entries_view(string_map@)) =~= saved_entries(
        map@.restrict(cells@.take(0).to_set()),
    ));
    assert(map@.restrict(cells@.take(0).to_set()) =~= Map::<Cell, Material>::empty());
    while i < cells.len()
        invariant
            i <= cells.len(),
            string_map@.len() == i,
            cells@.to_set() == map@.dom(),
            forall|j: int|
                0 <= j < i ==> (#[trigger] entries_view(string_map@)[j]).0 == cell_text(cells@[j]),
            entries_map(entries_view(string_map@)) == saved_entries(
                map@.restrict(cells@.take(i as int).to_set()),
            ),
            decoded(entries_view(string_map@)) == Ok::<Map<Cell, Material>, LoadError>(
                map@.restrict(cells@.take(i as int).to_set()),
            ),
        decreases cells.len() - i,
    {
        let cell = cells[i];
        assert(cells@.to_set().contains(cells@[i as int]));
        let material = match map.get(cell) {
            Some(m) => *m,
            None => {
                assert(false);
                Material::GRASS_GREEN
            },
        };
        let ghost before = entries_view(string_map@);
        let key = key_text(cell);
        let name = material.name().to_owned();
        string_map.push((key, name));
        proof {
            let after = entries_view(string_map@);
            let seen = map@.restrict(cells@.take(i as int).to_set());
            let next = map@.restrict(cells@.take(i + 1).to_set());
            lemma_take_next(cells@, i as int);
            lemma_cell_text_round_trip(cell);
            lemma_name_round_trip(material);
            assert(after.drop_last() =~= before);
            assert(after.last() == (cell_text(cell), material.tag()));
            assert forall|j: int| 0 <= j < i + 1 implies (#[trigger] after[j]).0 == cell_text(
                cells@[j],
            ) by {
                if j < i {
                    assert(after[j] == before[j]);
                }
            }
            assert(next =~= seen.insert(cell, material));
            assert(entries_map(after) == entries_map(before).insert(
                cell_text(cell),
                material.tag(),
            ));
            assert forall|key: Seq<char>| #[trigger]
                saved_entries(next).contains_key(key) == saved_entries(seen).insert(
                    cell_text(cell),
                    material.tag(),
                ).contains_key(key) by {}
            assert(saved_entries(next) =~= saved_entries(seen).insert(
                cell_text(cell),
                material.tag(),
            ));
        }
        i += 1;
    }
    proof {
        assert(cells@.take(cells@.len() as int) =~= cells@);
        assert(map@.restrict(cells@.to_set()) =~= map@);
        let keys = entry_keys(entries_view(string_map@));
        assert forall|j: int, k: int|
            0 <= j < keys.len() && 0 <= k < keys.len() && j != k implies keys[j] != keys[k] by {
            lemma_cell_text_round_trip(cells@[j]);
            lemma_cell_text_round_trip(cells@[k]);
            assert(keys[j] == entries_view(string_map@)[j].0);
            assert(keys[k] == entries_view(string_map@)[k].0);
        }
    }
    string_map
}

/// Turns a list of saved entries back into materials. Fails on the first
/// entry whose key is no cell or whose value is no material.
pub fn deserialize(string_map: &Vec<(String, String)>) -> (r: Result<CellMap<Material>, LoadError>)
    ensures
        match decoded(entries_view(string_map@)) {
            Ok(grid) => r matches Ok(map) && map@ == grid,
            Err(e) => r matches Err(x) && x == e,
        },
{
    let ghost entries = entries_view(string_map@);
    let mut map: CellMap<Material> = CellMap::new();
    let mut i: usize = 0;
    assert(entries.take(0) =~= Seq::empty());
    while i < string_map.len()
        invariant
            i <= string_map.len(),
            entries == entries_view(string_map@),
            decoded(entries.take(i as int)) == Ok::<Map<Cell, Material>, LoadError>(map@),
        decreases string_map.len() - i,
    {
        proof {
            assert(entries.take(i + 1).drop_last() =~= entries.take(i as int));
            assert(entries.take(i + 1).last() == (string_map@[i as int].0@, string_map@[i as int].1@));
        }
        let cell = match parse_key(string_map[i].0.as_str()) {
            Some(cell) => cell,
            None => {
                proof {
                    lemma_decoded_error_stays(entries, i + 1);
                }
                return Err(LoadError::InvalidKey);
            },
        };
        let material = match Material::from_name(&string_map[i].1) {
            Some(material) => material,
            None => {
                proof {
                    lemma_decoded_error_stays(entries, i + 1);
                }
                return Err(LoadError::UnknownMaterial);
            },
        };
        map.insert(cell, material);
        i += 1;
    }
    proof {
        assert(entries.take(string_map@.len() as int) =~= entries);
    }
    Ok(map)
}

/// The entries of an object as key and value strings; `None` where a value
/// is no string.
pub fn strings_of(values: &Vec<(String, Option<String>)>) -> (r: Option<Vec<(String, String)>>)
    ensures
        match string_entries(values_view(values@)) {
            Some(entries) => r matches Some(string_map) && entries_view(string_map@) == entries,
            None => r is None,
        },
{
    let ghost all = values_view(values@);
    let mut string_map: Vec<(String, String)> = Vec::new();
    let mut i: usize = 0;
    while i < values.len()
        invariant
            i <= values.len(),
            all == values_view(values@),
            string_map@.len() == i,
            forall|j: int| 0 <= j < i ==> (#[trigger] all[j]).1 is Some,
            forall|j: int|
                0 <= j < i ==> (#[trigger] entries_view(string_map@)[j]) == (
                    all[j].0,
                    all[j].1.unwrap(),
                ),
        decreases values.len() - i,
    {
        let ghost before = entries_view(string_map@);
        match &values[i].1 {
            Some(name) => {
                string_map.push((values[i].0.clone(), name.clone()));
            },
            None => {
                assert(all[i as int].1 is None);
                return None;
            },
        }
        proof {
            let after = entries_view(string_map@);
            assert(all[i as int].1 is Some);
            assert forall|j: int| 0 <= j < i + 1 implies (#[trigger] after[j]) == (
                all[j].0,
                all[j].1.unwrap(),
            ) by {
                if j < i {
                    assert(after[j] == before[j]);
                }
            }
        }
        i += 1;
    }
    proof {
        assert(entries_view(string_map@) =~= string_entries(all).unwrap());
    }
    Some(string_map)
}

/// The materials of a level as they are saved and loaded.
pub struct SerdeMapContainer {
    pub map: CellMap<Material>,
}

impl SerdeMapContainer {
    /// Builds the materials from the fields of a parsed document: those
    /// under the field `map`. Other fields are passed over.
    pub fn from_fields(fields: &Vec<(String, Option<Vec<(String, Option<String>)>>)>) -> (r: Result<
        SerdeMapContainer,
        LoadError,
    >)
        ensures
            match loaded_fields(fields_view(fields@)) {
                Ok(grid) => r matches Ok(container) && container.map@ == grid,
                Err(e) => r matches Err(x) && x == e,
            },
    {
        let ghost all = fields_view(fields@);
        let wanted = "map".to_owned();
        let mut i: usize = 0;
        assert(all.skip(0) =~= all);
        while i < fields.len()
            invariant
                i <= fields.len(),
                all == fields_view(fields@),
                wanted@ == "map"@,
                field_value(all, "map"@) == field_value(all.skip(i as int), "map"@),
            decreases fields.len() - i,
        {
            proof {
                assert(all.skip(i as int).drop_first() =~= all.skip(i + 1));
                assert(all.skip(i as int)[0] == all[i as int]);
            }
            if fields[i].0 == wanted {
                let string_map = match &fields[i].1 {
                    Some(values) => match strings_of(values) {
                        Some(string_map) => string_map,
                        None => {
                            return Err(LoadError::Syntax);
                        },
                    },
                    None => {
                        return Err(LoadError::Syntax);
                    },
                };
                return match deserialize(&string_map) {
                    Ok(map) => Ok(SerdeMapContainer { map }),
                    Err(e) => Err(e),
                };
            }
            i += 1;
        }
        Err(LoadError::MissingMap)
    }

    /// Reads saved materials from JSON text.
    pub fn from_json(text: &str) -> (r: Result<SerdeMapContainer, LoadError>)
        ensures
            match loaded(text@) {
                Ok(grid) => r matches Ok(container) && container.map@ == grid,
                Err(e) => r matches Err(x) && x == e,
            },
    {
        match decode_document(text) {
            Ok(fields) => SerdeMapContainer::from_fields(&fields),
            Err(_) => Err(LoadError::Syntax),
        }
    }

    /// Writes the materials as JSON text.
    pub fn to_json(&self) -> (text: String)
        ensures
            text@ == saved_text(self.map@),
    {
        save_text(&self.map)
    }
}

/// Writes materials as JSON text; the text is empty where the JSON library
/// reports an error.
pub fn save_text(map: &CellMap<Material>) -> (text: String)
    ensures
        text@ == saved_text(map@),
{
    let string_map = serialize(map);
    match encode_document("map", &string_map) {
        Ok(text) => text,
        Err(_) => String::new(),
    }
}

impl LevelView {
    /// The level after `grid` was loaded into it: the materials are those of
    /// `grid`, and every cell of `grid` is queued for a texture update, and
    /// for spawning too where it has no visual.
    pub open spec fn reloaded(self, grid: Map<Cell, Material>) -> LevelView {
        LevelView {
            materials: grid,
            texture_update_queue: self.texture_update_queue.union(grid.dom()),
            spawn_queue: self.spawn_queue.union(grid.dom().difference(self.entities.dom())),
            ..self
        }
    }
}

/// The materials with which a level starts: those of the saved text, or
/// those it has already where there is no text or the text cannot be loaded.
pub open spec fn starting_grid(current: Map<Cell, Material>, json: Option<Seq<char>>) -> Map<
    Cell,
    Material,
> {
    match json {
        None => current,
        Some(text) => match loaded(text) {
            Ok(grid) => grid,
            Err(_) => current,
        },
    }
}

/// Starts the level from its saved text. `json` is what the save file holds,
/// `None` where it could not be read. A text that cannot be loaded is passed
/// over and the level keeps its materials. Every tile is then queued for its
/// visual, and the session remembers what its last hovered cell holds.
pub fn load_level(level: &mut Level, hovering_block: &mut HoveringBlock, json: Option<&str>)
    ensures
        final(level)@ == old(level)@.reloaded(
            starting_grid(
                old(level)@.materials,
                match json {
                    Some(text) => Some(text@),
                    None => None,
                },
            ),
        ),
        *final(hovering_block) == (HoveringBlock {
            original_material: final(level)@.material(old(hovering_block).last_hovered),
            ..*old(hovering_block)
        }),
{
    match json {
        Some(text) => {
            match SerdeMapContainer::from_json(text) {
                Ok(container) => {
                    level.material_map = container.map;
                },
                Err(_) => {},
            }
        },
        None => {},
    }
    hovering_block.original_material = level.material(hovering_block.last_hovered);
    let ghost start = level@;
    let cells = level.material_map.cells();
    let mut i: usize = 0;
    assert(cells@.take(0).to_set() =~= Set::<Cell>::empty());
    assert(level@.texture_update_queue =~= start.texture_update_queue.union(
        cells@.take(0).to_set(),
    ));
    assert(level@.spawn_queue =~= start.spawn_queue.union(
        cells@.take(0).to_set().difference(start.entities.dom()),
    ));
    while i < cells.len()
        invariant
            i <= cells.len(),
            cells@.to_set() == start.materials.dom(),
            level@.materials == start.materials,
            level@.entities == start.entities,
            level@.despawn_queue == start.despawn_queue,
            level@.texture_update_queue == start.texture_update_queue.union(
                cells@.take(i as int).to_set(),
            ),
            level@.spawn_queue == start.spawn_queue.union(
                cells@.take(i as int).to_set().difference(start.entities.dom()),
            ),
        decreases cells.len() - i,
    {
        let cell = cells[i];
        assert(cells@.to_set().contains(cells@[i as int]));
        let material = level.material(cell);
        level.insert(cell, material);
        proof {
            lemma_take_next(cells@, i as int);
            assert(level@.materials =~= start.materials);
            assert(level@.texture_update_queue =~= start.texture_update_queue.union(
                cells@.take(i + 1).to_set(),
            ));
            assert(level@.spawn_queue =~= start.spawn_queue.union(
                cells@.take(i + 1).to_set().difference(start.entities.dom()),
            ));
        }
        i += 1;
    }
    proof {
        assert(cells@.take(cells@.len() as int) =~= cells@);
    }
}

} // verus!

//! Materials and the tile variants they are drawn with.

use vstd::prelude::*;
use vstd::string::StringExecFns;

verus! {

/// The kind of a placed tile.
#[allow(non_camel_case_types)]
#[derive(Clone, Copy, Debug, PartialEq, Eq, Structural, Hash, PartialOrd, Ord)]
pub enum Material {
    GRASS_GREEN,
    GRASS_ORANGE,
    GRASS_PINK,
    WOOD,
    STEEL,
    BRONZE,
    GOLD,
    BRICK,
}

/// The vertical variant of a tile.
#[derive(Clone, Copy, Debug, PartialEq, Eq, Structural, Hash, PartialOrd, Ord)]
pub enum Row {
    TOP,
    CENTER,
    BOTTOM,
}

/// The horizontal variant of a tile.
#[derive(Clone, Copy, Debug, PartialEq, Eq, Structural, Hash, PartialOrd, Ord)]
pub enum Column {
    LEFT,
    MIDDLE,
    RIGHT,
}

impl Material {
    /// Small materials are drawn from a 2×2 set of variants: they have no
    /// centre row and no middle column.
    pub open spec fn small(self) -> bool {
        self == Material::WOOD || self == Material::STEEL || self == Material::BRONZE || self
            == Material::GOLD
    }

    /// The name a material is saved under.
    pub open spec fn tag(self) -> Seq<char> {
        match self {
            Material::GRASS_GREEN => "GRASS_GREEN"@,
            Material::GRASS_ORANGE => "GRASS_ORANGE"@,
            Material::GRASS_PINK => "GRASS_PINK"@,
            Material::WOOD => "WOOD"@,
            Material::STEEL => "STEEL"@,
            Material::BRONZE => "BRONZE"@,
            Material::GOLD => "GOLD"@,
            Material::BRICK => "BRICK"@,
        }
    }

    /// The material saved under a name, if the name is one.
    pub open spec fn named(name: Seq<char>) -> Option<Material> {
        if name == "GRASS_GREEN"@ {
            Some(Material::GRASS_GREEN)
        } else if name == "GRASS_ORANGE"@ {
            Some(Material::GRASS_ORANGE)
        } else if name == "GRASS_PINK"@ {
            Some(Material::GRASS_PINK)
        } else if name == "WOOD"@ {
            Some(Material::WOOD)
        } else if name == "STEEL"@ {
            Some(Material::STEEL)
        } else if name == "BRONZE"@ {
            Some(Material::BRONZE)
        } else if name == "GOLD"@ {
            Some(Material::GOLD)
        } else if name == "BRICK"@ {
            Some(Material::BRICK)
        } else {
            None
        }
    }

    /// The selection that follows `selected` when the editor cycles through
    /// the materials; `None` is the eraser, which comes last.
    pub open spec fn after(selected: Option<Material>) -> Option<Material> {
        match selected {
            Some(Material::GRASS_GREEN) => Some(Material::GRASS_ORANGE),
            Some(Material::GRASS_ORANGE) => Some(Material::GRASS_PINK),
            Some(Material::GRASS_PINK) => Some(Material::WOOD),
            Some(Material::WOOD) => Some(Material::STEEL),
            Some(Material::STEEL) => Some(Material::BRONZE),
            Some(Material::BRONZE) => Some(Material::BRICK),
            Some(Material::BRICK) => Some(Material::GOLD),
            Some(Material::GOLD) => None,
            None => Some(Material::GRASS_GREEN),
        }
    }

    /// Whether this material has the reduced 2×2 set of variants.
    pub fn is_small(&self) -> (r: bool)
        ensures
            r == self.small(),
    {
        match self {
            Material::WOOD | Material::STEEL | Material::BRONZE | Material::GOLD => true,
            _ => false,
        }
    }

    /// The name this material is saved under.
    pub fn name(&self) -> (r: &'static str)
        ensures
            r@ == self.tag(),
    {
        match self {
            Material::GRASS_GREEN => "GRASS_GREEN",
            Material::GRASS_ORANGE => "GRASS_ORANGE",
            Material::GRASS_PINK => "GRASS_PINK",
            Material::WOOD => "WOOD",
            Material::STEEL => "STEEL",
            Material::BRONZE => "BRONZE",
            Material::GOLD => "GOLD",
            Material::BRICK => "BRICK",
        }
    }

    /// The material saved under `name`; `None` where `name` names none.
    pub fn from_name(name: &String) -> (r: Option<Material>)
        ensures
            r == Material::named(name@),
    {
        if same_text(name, "GRASS_GREEN") {
            Some(Material::GRASS_GREEN)
        } else if same_text(name, "GRASS_ORANGE") {
            Some(Material::GRASS_ORANGE)
        } else if same_text(name, "GRASS_PINK") {
            Some(Material::GRASS_PINK)
        } else if same_text(name, "WOOD") {
            Some(Material::WOOD)
        } else if same_text(name, "STEEL") {
            Some(Material::STEEL)
        } else if same_text(name, "BRONZE") {
            Some(Material::BRONZE)
        } else if same_text(name, "GOLD") {
            Some(Material::GOLD)
        } else if same_text(name, "BRICK") {
            Some(Material::BRICK)
        } else {
            None
        }
    }

    /// The selection that follows `selected` in the editor's cycle.
    pub fn next(selected: Option<Material>) -> (r: Option<Material>)
        ensures
            r == Material::after(selected),
    {
        match selected {
            Some(Material::GRASS_GREEN) => Some(Material::GRASS_ORANGE),
            Some(Material::GRASS_ORANGE) => Some(Material::GRASS_PINK),
            Some(Material::GRASS_PINK) => Some(Material::WOOD),
            Some(Material::WOOD) => Some(Material::STEEL),
            Some(Material::STEEL) => Some(Material::BRONZE),
            Some(Material::BRONZE) => Some(Material::BRICK),
            Some(Material::BRICK) => Some(Material::GOLD),
            Some(Material::GOLD) => None,
            None => Some(Material::GRASS_GREEN),
        }
    }
}

fn same_text(a: &String, b: &str) -> (r: bool)
    ensures
        r == (a@ == b@),
{
    let owned = b.to_owned();
    *a == owned
}

/// Whether the texture table holds an image for this combination: every
/// combination of a full material, and the four corners of a small one.
pub open spec fn textured(material: Material, row: Row, column: Column) -> bool {
    !material.small() || (row != Row::CENTER && column != Column::MIDDLE)
}

/// Whether the texture table holds an image for this combination.
pub fn has_texture(material: Material, row: Row, column: Column) -> (r: bool)
    ensures
        r == textured(material, row, column),
{
    !material.is_small() || (row != Row::CENTER && column != Column::MIDDLE)
}

impl Material {
    /// The place of a material in the list of all materials.
    pub open spec fn index(self) -> int {
        match self {
            Material::GRASS_GREEN => 0,
            Material::GRASS_ORANGE => 1,
            Material::GRASS_PINK => 2,
            Material::WOOD => 3,
            Material::STEEL => 4,
            Material::BRONZE => 5,
            Material::GOLD => 6,
            Material::BRICK => 7,
        }
    }

    /// Every material, once.
    pub fn all() -> (all: Vec<Material>)
        ensures
            all@.len() == 8,
            forall|i: int| 0 <= i < 8 ==> (#[trigger] all@[i]).index() == i,
    {
        vec![
            Material::GRASS_GREEN,
            Material::GRASS_ORANGE,
            Material::GRASS_PINK,
            Material::WOOD,
            Material::STEEL,
            Material::BRONZE,
            Material::GOLD,
            Material::BRICK,
        ]
    }
}

impl Row {
    /// The place of a row in the list of all rows.
    pub open spec fn index(self) -> int {
        match self {
            Row::TOP => 0,
            Row::CENTER => 1,
            Row::BOTTOM => 2,
        }
    }

    /// The name of a row in the file names of the textures.
    pub open spec fn tag(self) -> Seq<char> {
        match self {
            Row::TOP => "TOP"@,
            Row::CENTER => "CENTER"@,
            Row::BOTTOM => "BOTTOM"@,
        }
    }

    /// Every row, once.
    pub fn all() -> (all: Vec<Row>)
        ensures
            all@.len() == 3,
            forall|i: int| 0 <= i < 3 ==> (#[trigger] all@[i]).index() == i,
    {
        vec![Row::TOP, Row::CENTER, Row::BOTTOM]
    }

    /// The name of this row in the file names of the textures.
    pub fn name(&self) -> (r: &'static str)
        ensures
            r@ == self.tag(),
    {
        match self {
            Row::TOP => "TOP",
            Row::CENTER => "CENTER",
            Row::BOTTOM => "BOTTOM",
        }
    }
}

impl Column {
    /// The place of a column in the list of all columns.
    pub open spec fn index(self) -> int {
        match self {
            Column::LEFT => 0,
            Column::MIDDLE => 1,
            Column::RIGHT => 2,
        }
    }

    /// The name of a column in the file names of the textures.
    pub open spec fn tag(self) -> Seq<char> {
        match self {
            Column::LEFT => "LEFT"@,
            Column::MIDDLE => "MIDDLE"@,
            Column::RIGHT => "RIGHT"@,
        }
    }

    /// Every column, once.
    pub fn all() -> (all: Vec<Column>)
        ensures
            all@.len() == 3,
            forall|i: int| 0 <= i < 3 ==> (#[trigger] all@[i]).index() == i,
    {
        vec![Column::LEFT, Column::MIDDLE, Column::RIGHT]
    }

    /// The name of this column in the file names of the textures.
    pub fn name(&self) -> (r: &'static str)
        ensures
            r@ == self.tag(),
    {
        match self {
            Column::LEFT => "LEFT",
            Column::MIDDLE => "MIDDLE",
            Column::RIGHT => "RIGHT",
        }
    }
}

/// The name of the image file of a combination: the names of the material,
/// the row and the column, joined by underscores, with the ending `.png`.
pub open spec fn texture_file(material: Material, row: Row, column: Column) -> Seq<char> {
    material.tag() + "_"@ + row.tag() + "_"@ + column.tag() + ".png"@
}

/// The name of the image file of a combination, inside the directory that is
/// named after the material.
pub fn texture_file_name(material: Material, row: Row, column: Column) -> (name: String)
    ensures
        name@ == texture_file(material, row, column),
{
    let mut name = material.name().to_owned();
    name.append("_");
    name.append(row.name());
    name.append("_");
    name.append(column.name());
    name.append(".png");
    name
}

/// The place of a combination in the texture table: materials in their
/// order, for each its columns, for each column its rows.
pub open spec fn texture_ordinal(key: (Material, Row, Column)) -> int {
    key.0.index() * 9 + key.2.index() * 3 + key.1.index()
}

/// The combinations for which the texture table holds an image, each once,
/// in the order of the table.
pub fn texture_keys() -> (keys: Vec<(Material, Row, Column)>)
    ensures
        keys@.no_duplicates(),
        forall|m: Material, r: Row, c: Column| #[trigger]
            keys@.contains((m, r, c)) <==> textured(m, r, c),
        forall|i: int, j: int|
            0 <= i < j < keys@.len() ==> texture_ordinal(keys@[i]) < texture_ordinal(keys@[j]),
{
    let materials = Material::all();
    let rows = Row::all();
    let columns = Column::all();
    let mut keys: Vec<(Material, Row, Column)> = Vec::new();
    let mut n: usize = 0;
    while n < 72
        invariant
            n <= 72,
            materials@.len() == 8,
            forall|i: int| 0 <= i < 8 ==> (#[trigger] materials@[i]).index() == i,
            rows@.len() == 3,
            forall|i: int| 0 <= i < 3 ==> (#[trigger] rows@[i]).index() == i,
            columns@.len() == 3,
            forall|i: int| 0 <= i < 3 ==> (#[trigger] columns@[i]).index() == i,
            forall|i: int|
                0 <= i < keys@.len() ==> texture_ordinal(#[trigger] keys@[i]) < n && textured(
                    keys@[i].0,
                    keys@[i].1,
                    keys@[i].2,
                ),
            forall|i: int, j: int|
                0 <= i < j < keys@.len() ==> texture_ordinal(keys@[i]) < texture_ordinal(keys@[j]),
            forall|m: Material, r: Row, c: Column|
                textured(m, r, c) && texture_ordinal((m, r, c)) < n ==> #[trigger] keys@.contains(
                    (m, r, c),
                ),
        decreases 72 - n,
    {
        let material = materials[n / 9];
        let column = columns[n % 9 / 3];
        let row = rows[n % 3];
        let ghost before = keys@;
        assert(texture_ordinal((material, row, column)) == n);
        if has_texture(material, row, column) {
            keys.push((material, row, column));
            assert(keys@[before.len() as int] == (material, row, column));
        }
        proof {
            assert forall|m: Material, r: Row, c: Column|
                textured(m, r, c) && texture_ordinal((m, r, c)) < n + 1 implies #[trigger] keys@.contains(
                    (m, r, c),
                ) by {
                if texture_ordinal((m, r, c)) < n {
                    assert(before.contains((m, r, c)));
                    let i = choose|i: int| 0 <= i < before.len() && before[i] == (m, r, c);
                    assert(keys@[i] == before[i]);
                } else {
                    assert(m.index() == material.index());
                    assert(c.index() == column.index());
                    assert(r.index() == row.index());
                    assert((m, r, c) == (material, row, column));
                }
            }
        }
        n += 1;
    }
    proof {
        assert forall|m: Material, r: Row, c: Column| #[trigger]
            keys@.contains((m, r, c)) <==> textured(m, r, c) by {
            if keys@.contains((m, r, c)) {
                let i = choose|i: int| 0 <= i < keys@.len() && keys@[i] == (m, r, c);
                assert(textured(keys@[i].0, keys@[i].1, keys@[i].2));
            }
            if textured(m, r, c) {
                assert(texture_ordinal((m, r, c)) < 72);
            }
        }
    }
    keys
}

/// Each material is found again from the name it is saved under.
pub proof fn lemma_name_round_trip(material: Material)
    ensures
        Material::named(material.tag()) == Some(material),
{
    reveal_strlit("GRASS_GREEN");
    reveal_strlit("GRASS_ORANGE");
    reveal_strlit("GRASS_PINK");
    reveal_strlit("WOOD");
    reveal_strlit("STEEL");
    reveal_strlit("BRONZE");
    reveal_strlit("GOLD");
    reveal_strlit("BRICK");
    assert("GRASS_GREEN"@.len() == 11);
    assert("GRASS_ORANGE"@.len() == 12);
    assert("GRASS_PINK"@.len() == 10);
    assert("WOOD"@.len() == 4 && "WOOD"@[0] == 'W');
    assert("STEEL"@.len() == 5 && "STEEL"@[0] == 'S');
    assert("BRONZE"@.len() == 6);
    assert("GOLD"@.len() == 4 && "GOLD"@[0] == 'G');
    assert("BRICK"@.len() == 5 && "BRICK"@[0] == 'B');
}

/// The editor's cycle passes through every selection: nine steps from any
/// selection lead back to it, and fewer do not.
pub proof fn lemma_cycle_is_complete(selected: Option<Material>)
    ensures
        ({
            let a1 = Material::after(selected);
            let a2 = Material::after(a1);
            let a3 = Material::after(a2);
            let a4 = Material::after(a3);
            let a5 = Material::after(a4);
            let a6 = Material::after(a5);
            let a7 = Material::after(a6);
            let a8 = Material::after(a7);
            let a9 = Material::after(a8);
            &&& a9 == selected
            &&& a1 != selected && a2 != selected && a3 != selected && a4 != selected
            &&& a5 != selected && a6 != selected && a7 != selected && a8 != selected
        }),
{
}

} // verus!

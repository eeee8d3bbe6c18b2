//! The reimbursement categories and the item-name mapping that a new
//! configuration starts with.
use vstd::prelude::*;

verus! {

/// One row of the item-name mapping.
pub struct MappingRow {
    /// The item names it matches, e.g. `*汽油*|*燃油*`.
    pub project_pattern: String,
    /// The everyday name of the item.
    pub generic_name: String,
    /// The major class of expense.
    pub major_category: String,
    /// The reimbursement category.
    pub category: String,
}

impl View for MappingRow {
    type V = (Seq<char>, Seq<char>, Seq<char>, Seq<char>);

    open spec fn view(&self) -> (Seq<char>, Seq<char>, Seq<char>, Seq<char>) {
        (self.project_pattern@, self.generic_name@, self.major_category@, self.category@)
    }
}

/// The reimbursement categories a new configuration starts with.
pub open spec fn default_categories_spec() -> Seq<Seq<char>> {
    seq![
        "加油费"@,
        "过路费"@,
        "餐饮费"@,
        "住宿费"@,
        "邮寄费"@,
        "办公用品"@,
        "通讯费"@,
        "其他费用"@,
    ]
}

/// The reimbursement categories a new configuration starts with.
pub fn default_categories() -> (res: Vec<String>)
    ensures
        res.deep_view() == default_categories_spec(),
{
    let mut v: Vec<String> = Vec::new();
    v.push("加油费".to_owned());
    v.push("过路费".to_owned());
    v.push("餐饮费".to_owned());
    v.push("住宿费".to_owned());
    v.push("邮寄费".to_owned());
    v.push("办公用品".to_owned());
    v.push("通讯费".to_owned());
    v.push("其他费用".to_owned());
    assert(v.deep_view() =~= default_categories_spec());
    v
}

/// The mapping a new configuration starts with.
pub open spec fn default_mapping_spec() -> Seq<(Seq<char>, Seq<char>, Seq<char>, Seq<char>)> {
    seq![
        ("*住宿*"@, "住宿"@, "其他费用"@, "住宿费"@),
        ("*餐饮*"@, "餐饮"@, "其他费用"@, "餐饮费"@),
        ("*汽油*|*燃油*"@, "加油"@, "交通"@, "加油费"@),
        ("*通行*|*ETC*"@, "过路"@, "交通"@, "过路费"@),
    ]
}

fn row(a: &str, b: &str, c: &str, d: &str) -> (res: MappingRow)
    ensures
        res@ == (a@, b@, c@, d@),
{
    MappingRow {
        project_pattern: a.to_owned(),
        generic_name: b.to_owned(),
        major_category: c.to_owned(),
        category: d.to_owned(),
    }
}

/// The mapping a new configuration starts with.
pub fn default_mapping() -> (res: Vec<MappingRow>)
    ensures
        res@.map_values(|r: MappingRow| r@) == default_mapping_spec(),
{
    let mut v: Vec<MappingRow> = Vec::new();
    v.push(row("*住宿*", "住宿", "其他费用", "住宿费"));
    v.push(row("*餐饮*", "餐饮", "其他费用", "餐饮费"));
    v.push(row("*汽油*|*燃油*", "加油", "交通", "加油费"));
    v.push(row("*通行*|*ETC*", "过路", "交通", "过路费"));
    assert(v@.map_values(|r: MappingRow| r@) =~= default_mapping_spec());
    v
}

/// The seed configuration is consistent: the category of every seed mapping
/// row is one of the seed categories.
pub proof fn lemma_default_mapping_categories_known()
    ensures
        forall|i: int|
            0 <= i < default_mapping_spec().len() ==> default_categories_spec().contains(
                (#[trigger] default_mapping_spec()[i]).3,
            ),
{
    let cats = default_categories_spec();
    let rows = default_mapping_spec();
    assert(rows[0].3 == cats[3]);
    assert(rows[1].3 == cats[2]);
    assert(rows[2].3 == cats[0]);
    assert(rows[3].3 == cats[1]);
}

} // verus!

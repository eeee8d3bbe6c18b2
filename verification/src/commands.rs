//! The decisions behind the application's commands: which files of a work
//! folder are invoices and in what order they are listed, and whether a
//! mapping file may be imported.
use vstd::multiset::Multiset;
use vstd::prelude::*;

use crate::invoice_parser::PdfEntry;
use crate::bindings::mapping_entries_of;
use crate::bindings::parse_mapping_entries;
use crate::bindings::parse_string_list;
use crate::bindings::string_list_of;
use crate::text::chars_of;

verus! {

/// One entry of a mapping file.
pub enum MappingEntry {
    /// An entry that is not a JSON object.
    NotObject,
    /// A JSON object: each key, with its value when that is a string.
    Object { fields: Vec<(String, Option<String>)> },
}

/// An entry of a mapping file, by views.
pub enum MappingEntryView {
    NotObject,
    Object(Seq<(Seq<char>, Option<Seq<char>>)>),
}

impl View for MappingEntry {
    type V = MappingEntryView;

    open spec fn view(&self) -> MappingEntryView {
        match self {
            MappingEntry::NotObject => MappingEntryView::NotObject,
            MappingEntry::Object { fields } => MappingEntryView::Object(fields.deep_view()),
        }
    }
}

/// The entries of a mapping file, by views; `None` when it is not an array.
pub open spec fn entries_view(entries: &Option<Vec<MappingEntry>>) -> Option<Seq<MappingEntryView>> {
    match entries {
        Some(list) => Some(list@.map_values(|e: MappingEntry| e@)),
        None => None,
    }
}

/// The keys of an object's fields.
pub open spec fn field_keys(fields: Seq<(Seq<char>, Option<Seq<char>>)>) -> Seq<Seq<char>> {
    fields.map_values(|f: (Seq<char>, Option<Seq<char>>)| f.0)
}

/// The string value of the field named `key`, when there is one.
pub open spec fn string_field(fields: Seq<(Seq<char>, Option<Seq<char>>)>, key: Seq<char>) -> Option<
    Seq<char>,
>
    decreases fields.len(),
{
    if fields.len() == 0 {
        None
    } else if fields[0].0 == key {
        fields[0].1
    } else {
        string_field(fields.drop_first(), key)
    }
}

/// The keys every entry of an imported mapping must have.
pub open spec fn required_keys() -> Seq<Seq<char>> {
    seq!["项目名称"@, "通用项目名称"@, "大类别"@, "报销类别"@]
}

/// Whether an entry may be imported: it is an object with every required
/// key, and its category (empty when absent or not a string) is a known one.
pub open spec fn entry_acceptable(entry: MappingEntryView, categories: Seq<Seq<char>>) -> bool {
    match entry {
        MappingEntryView::NotObject => false,
        MappingEntryView::Object(fields) => {
            &&& forall|r: int|
                0 <= r < required_keys().len() ==> field_keys(fields).contains(
                    #[trigger] required_keys()[r],
                )
            &&& categories.contains(
                match string_field(fields, "报销类别"@) {
                    Some(c) => c,
                    None => Seq::empty(),
                },
            )
        },
    }
}

/// The message for a mapping that may not be imported.
pub open spec fn import_failed_message() -> Seq<char> {
    "导入失败"@
}

/// The message for a category list that does not read as a list of strings.
pub open spec fn categories_broken_message() -> Seq<char> {
    "category.json 损坏"@
}

fn contains_string(list: &Vec<String>, item: &str) -> (res: bool)
    ensures
        res == list.deep_view().contains(item@),
{
    let target = item.to_owned();
    let n = list.len();
    let mut i: usize = 0;
    while i < n
        invariant
            i <= n == list@.len(),
            target@ == item@,
            forall|j: int| 0 <= j < i ==> (#[trigger] list@[j])@ != item@,
        decreases n - i,
    {
        if list[i] == target {
            assert(list.deep_view()[i as int] == item@);
            return true;
        }
        i += 1;
    }
    assert forall|j: int| 0 <= j < list.deep_view().len() implies list.deep_view()[j] != item@ by {
        assert(list.deep_view()[j] == list@[j]@);
    }
    false
}

/// Whether some field is named `key`.
fn has_field(fields: &Vec<(String, Option<String>)>, key: &str) -> (res: bool)
    ensures
        res == field_keys(fields.deep_view()).contains(key@),
{
    let target = key.to_owned();
    let n = fields.len();
    let ghost keys = field_keys(fields.deep_view());
    let mut i: usize = 0;
    while i < n
        invariant
            i <= n == fields@.len() == keys.len(),
            keys == field_keys(fields.deep_view()),
            target@ == key@,
            forall|j: int| 0 <= j < i ==> keys[j] != key@,
        decreases n - i,
    {
        assert(keys[i as int] == fields@[i as int].0@);
        if fields[i].0 == target {
            assert(keys[i as int] == key@);
            return true;
        }
        i += 1;
    }
    false
}

/// The string value of the field named `key`, when there is one.
fn string_field_exec(fields: &Vec<(String, Option<String>)>, key: &str) -> (res: Option<String>)
    ensures
        res.deep_view() == string_field(fields.deep_view(), key@),
{
    let target = key.to_owned();
    let n = fields.len();
    let ghost all = fields.deep_view();
    let mut i: usize = 0;
    assert(all.skip(0) =~= all);
    while i < n
        invariant
            i <= n == fields@.len() == all.len(),
            all == fields.deep_view(),
            target@ == key@,
            string_field(all, key@) == string_field(all.skip(i as int), key@),
        decreases n - i,
    {
        let ghost rest = all.skip(i as int);
        assert(rest[0] == all[i as int]);
        assert(rest.drop_first() =~= all.skip(i + 1));
        assert(all[i as int] == fields@[i as int].deep_view());
        if fields[i].0 == target {
            return match &fields[i].1 {
                Some(v) => Some(v.clone()),
                None => None,
            };
        }
        i += 1;
    }
    None
}

fn entry_acceptable_exec(entry: &MappingEntry, categories: &Vec<String>) -> (res: bool)
    ensures
        res == entry_acceptable(entry@, categories.deep_view()),
{
    match entry {
        MappingEntry::NotObject => false,
        MappingEntry::Object { fields } => {
            let ghost keys = field_keys(fields.deep_view());
            let has_all = has_field(fields, "项目名称") && has_field(fields, "通用项目名称")
                && has_field(fields, "大类别") && has_field(fields, "报销类别");
            proof {
                if has_all {
                    assert forall|r: int| 0 <= r < required_keys().len() implies keys.contains(
                        #[trigger] required_keys()[r],
                    ) by {
                        if r == 0 {
                        } else if r == 1 {
                        } else if r == 2 {
                        } else {
                        }
                    }
                } else {
                    assert(!(forall|r: int|
                        0 <= r < required_keys().len() ==> keys.contains(
                            #[trigger] required_keys()[r],
                        ))) by {
                        assert(required_keys()[0] == "项目名称"@);
                        assert(required_keys()[1] == "通用项目名称"@);
                        assert(required_keys()[2] == "大类别"@);
                        assert(required_keys()[3] == "报销类别"@);
                    }
                }
            }
            if !has_all {
                return false;
            }
            match string_field_exec(fields, "报销类别") {
                Some(c) => contains_string(categories, c.as_str()),
                None => {
                    let empty = String::new();
                    contains_string(categories, empty.as_str())
                },
            }
        },
    }
}

/// Whether a mapping file may be imported: it is a JSON array (`entries` is
/// `Some`) whose every entry may be imported.
pub open spec fn mapping_importable(entries: Option<Seq<MappingEntryView>>, categories: Seq<Seq<char>>) -> bool {
    match entries {
        Some(list) => all_acceptable(list, categories),
        None => false,
    }
}

/// Whether every entry may be imported.
pub open spec fn all_acceptable(list: Seq<MappingEntryView>, categories: Seq<Seq<char>>) -> bool {
    forall|i: int| 0 <= i < list.len() ==> entry_acceptable(#[trigger] list[i], categories)
}

/// A mapping may be imported exactly when it is an array every item of
/// which is an object holding each of the keys `项目名称`, `通用项目名称`,
/// `大类别` and `报销类别`, whose `报销类别` (empty when it is not a string)
/// is one of the categories. An item lacking any one of the four keys, or
/// that is no object, makes the import fail.
pub proof fn lemma_importable_needs_all_keys(entries: Seq<MappingEntryView>, categories: Seq<Seq<char>>)
    ensures
        !mapping_importable(None, categories),
        mapping_importable(Some(entries), categories) <==> forall|i: int|
            0 <= i < entries.len() ==> match #[trigger] entries[i] {
                MappingEntryView::NotObject => false,
                MappingEntryView::Object(fields) => {
                    &&& field_keys(fields).contains("项目名称"@)
                    &&& field_keys(fields).contains("通用项目名称"@)
                    &&& field_keys(fields).contains("大类别"@)
                    &&& field_keys(fields).contains("报销类别"@)
                    &&& categories.contains(
                        match string_field(fields, "报销类别"@) {
                            Some(c) => c,
                            None => Seq::empty(),
                        },
                    )
                },
            },
{
    assert(required_keys()[0] == "项目名称"@);
    assert(required_keys()[1] == "通用项目名称"@);
    assert(required_keys()[2] == "大类别"@);
    assert(required_keys()[3] == "报销类别"@);
    assert forall|i: int| 0 <= i < entries.len() implies (entry_acceptable(entries[i], categories)
        <==> match #[trigger] entries[i] {
        MappingEntryView::NotObject => false,
        MappingEntryView::Object(fields) => {
            &&& field_keys(fields).contains("项目名称"@)
            &&& field_keys(fields).contains("通用项目名称"@)
            &&& field_keys(fields).contains("大类别"@)
            &&& field_keys(fields).contains("报销类别"@)
            &&& categories.contains(
                match string_field(fields, "报销类别"@) {
                    Some(c) => c,
                    None => Seq::empty(),
                },
            )
        },
    }) by {
        match entries[i] {
            MappingEntryView::NotObject => {},
            MappingEntryView::Object(fields) => {
                let keys = field_keys(fields);
                if keys.contains("项目名称"@) && keys.contains("通用项目名称"@) && keys.contains(
                    "大类别"@,
                ) && keys.contains("报销类别"@) {
                    assert forall|r: int| 0 <= r < required_keys().len() implies keys.contains(
                        #[trigger] required_keys()[r],
                    ) by {
                        if r == 0 {
                        } else if r == 1 {
                        } else if r == 2 {
                        } else {
                        }
                    }
                }
            },
        }
    }
}

/// The check a mapping file must pass before it replaces the mapping: it is
/// a JSON array (`entries` is `Some`) whose every entry may be imported.
pub fn check_mapping_import(categories: &Vec<String>, entries: &Option<Vec<MappingEntry>>) -> (res:
    Result<(), String>)
    ensures
        res is Ok <==> mapping_importable(entries_view(entries), categories.deep_view()),
        res matches Err(e) ==> e@ == import_failed_message(),
{
    match entries {
        None => Err("导入失败".to_owned()),
        Some(list) => {
            let ghost views = list@.map_values(|e: MappingEntry| e@);
            let n = list.len();
            let mut i: usize = 0;
            while i < n
                invariant
                    i <= n == list@.len() == views.len(),
                    views == list@.map_values(|e: MappingEntry| e@),
                    entries_view(entries) == Some(views),
                    forall|j: int|
                        0 <= j < i ==> entry_acceptable(#[trigger] views[j], categories.deep_view()),
                decreases n - i,
            {
                assert(views[i as int] == list@[i as int]@);
                if !entry_acceptable_exec(&list[i], categories) {
                    assert(!entry_acceptable(views[i as int], categories.deep_view()));
                    assert(!mapping_importable(entries_view(entries), categories.deep_view()));
                    return Err("导入失败".to_owned());
                }
                i += 1;
            }
            Ok(())
        },
    }
}

/// Whether a mapping file may replace the mapping: `Ok` when the category
/// list reads as a list of strings and the mapping reads as a JSON array
/// whose every entry may be imported; otherwise the message for the first
/// thing that is wrong.
pub open spec fn mapping_text_check(categories_text: Seq<char>, mapping_text: Seq<char>) -> Result<
    (),
    Seq<char>,
> {
    match string_list_of(categories_text) {
        None => Err(categories_broken_message()),
        Some(categories) => match mapping_entries_of(mapping_text) {
            Some(entries) => if mapping_importable(entries, categories) {
                Ok(())
            } else {
                Err(import_failed_message())
            },
            None => Err(import_failed_message()),
        },
    }
}

/// Checks the text of a mapping file against the text of the category
/// list before the mapping is replaced.
pub fn check_mapping_text(categories_text: &str, mapping_text: &str) -> (res: Result<(), String>)
    ensures
        match (res, mapping_text_check(categories_text@, mapping_text@)) {
            (Ok(()), Ok(())) => true,
            (Err(e), Err(m)) => e@ == m,
            _ => false,
        },
{
    let categories = match parse_string_list(categories_text) {
        Some(c) => c,
        None => {
            return Err("category.json 损坏".to_owned());
        },
    };
    match parse_mapping_entries(mapping_text) {
        None => Err("导入失败".to_owned()),
        Some(entries) => check_mapping_import(&categories, &entries),
    }
}

/// A rule for matching item names to categories: an item-name pattern and
/// the category it gives.
pub struct MappingRule {
    pub pattern: String,
    pub category: String,
}

impl View for MappingRule {
    type V = (Seq<char>, Seq<char>);

    open spec fn view(&self) -> (Seq<char>, Seq<char>) {
        (self.pattern@, self.category@)
    }
}

/// The rule an entry gives: an object whose `项目名称` and `报销类别` are
/// strings gives the rule from the one to the other.
pub open spec fn rule_of(entry: MappingEntryView) -> Option<(Seq<char>, Seq<char>)> {
    match entry {
        MappingEntryView::Object(fields) => match (
            string_field(fields, "项目名称"@),
            string_field(fields, "报销类别"@),
        ) {
            (Some(p), Some(c)) => Some((p, c)),
            _ => None,
        },
        MappingEntryView::NotObject => None,
    }
}

/// The rules the entries give, in order; entries that give none are left
/// out.
pub open spec fn rules_of(entries: Seq<MappingEntryView>) -> Seq<(Seq<char>, Seq<char>)>
    decreases entries.len(),
{
    if entries.len() == 0 {
        Seq::empty()
    } else {
        match rule_of(entries.last()) {
            Some(r) => rules_of(entries.drop_last()).push(r),
            None => rules_of(entries.drop_last()),
        }
    }
}

/// The rules a mapping file gives; none when it is not an array.
pub open spec fn mapping_rules_spec(entries: Option<Seq<MappingEntryView>>) -> Seq<(Seq<char>, Seq<char>)> {
    match entries {
        Some(list) => rules_of(list),
        None => Seq::empty(),
    }
}

/// The rules by their views.
pub open spec fn rule_views(rules: Seq<MappingRule>) -> Seq<(Seq<char>, Seq<char>)> {
    rules.map_values(|r: MappingRule| r@)
}

/// The rules for matching item names that the entries of a mapping file
/// give, in order.
pub fn mapping_rules(entries: &Option<Vec<MappingEntry>>) -> (res: Vec<MappingRule>)
    ensures
        rule_views(res@) == mapping_rules_spec(entries_view(entries)),
{
    let mut out: Vec<MappingRule> = Vec::new();
    match entries {
        None => {
            assert(rule_views(out@) =~= Seq::<(Seq<char>, Seq<char>)>::empty());
        },
        Some(list) => {
            let ghost views = list@.map_values(|e: MappingEntry| e@);
            let n = list.len();
            let mut i: usize = 0;
            assert(rule_views(out@) =~= rules_of(views.take(0)));
            while i < n
                invariant
                    i <= n == list@.len() == views.len(),
                    views == list@.map_values(|e: MappingEntry| e@),
                    entries_view(entries) == Some(views),
                    rule_views(out@) == rules_of(views.take(i as int)),
                decreases n - i,
            {
                assert(views.take(i + 1).drop_last() =~= views.take(i as int));
                assert(views.take(i + 1).last() == list@[i as int]@);
                if let MappingEntry::Object { fields } = &list[i] {
                    let p = string_field_exec(fields, "项目名称");
                    let c = string_field_exec(fields, "报销类别");
                    if let (Some(p), Some(c)) = (p, c) {
                        let ghost before = out@;
                        out.push(MappingRule { pattern: p, category: c });
                        assert(rule_views(out@) =~= rule_views(before).push(out@.last()@));
                    }
                }
                i += 1;
            }
            assert(views.take(n as int) =~= views);
        },
    }
    out
}

/// The rules a mapping file's text gives; none when it is not a JSON array.
pub fn mapping_rules_from_text(text: &str) -> (res: Vec<MappingRule>)
    ensures
        rule_views(res@) == match mapping_entries_of(text@) {
            Some(entries) => mapping_rules_spec(entries),
            None => Seq::empty(),
        },
{
    match parse_mapping_entries(text) {
        Some(entries) => mapping_rules(&entries),
        None => {
            let out: Vec<MappingRule> = Vec::new();
            assert(rule_views(out@) =~= Seq::<(Seq<char>, Seq<char>)>::empty());
            out
        },
    }
}

/// The ASCII lower-case form of `c`.
pub open spec fn ascii_lower(c: char) -> char {
    if 'A' <= c && c <= 'Z' {
        ((c as int) + 32) as char
    } else {
        c
    }
}

/// Whether a file extension is `pdf` in any ASCII letter case.
pub open spec fn is_pdf_extension_spec(ext: Seq<char>) -> bool {
    ext.len() == 3 && ascii_lower(ext[0]) == 'p' && ascii_lower(ext[1]) == 'd' && ascii_lower(ext[2])
        == 'f'
}

/// Whether a file extension is `pdf` in any ASCII letter case, as
/// `eq_ignore_ascii_case("pdf")` tells it.
pub fn is_pdf_extension(ext: &str) -> (res: bool)
    ensures
        res == is_pdf_extension_spec(ext@),
{
    let cs = chars_of(ext);
    if cs.len() != 3 {
        return false;
    }
    let a = cs[0];
    let b = cs[1];
    let c = cs[2];
    (a == 'p' || a == 'P') && (b == 'd' || b == 'D') && (c == 'f' || c == 'F')
}

/// Whether `a` comes no later than `b` in the order of `str`: character by
/// character by code point, a prefix first.
pub open spec fn chars_le(a: Seq<char>, b: Seq<char>) -> bool
    decreases a.len(),
{
    if a.len() == 0 {
        true
    } else if b.len() == 0 {
        false
    } else if a[0] != b[0] {
        a[0] < b[0]
    } else {
        chars_le(a.drop_first(), b.drop_first())
    }
}

/// The order of `str` is total and transitive.
pub proof fn lemma_chars_le_total_order(a: Seq<char>, b: Seq<char>, c: Seq<char>)
    ensures
        chars_le(a, a),
        chars_le(a, b) || chars_le(b, a),
        chars_le(a, b) && chars_le(b, c) ==> chars_le(a, c),
        chars_le(a, b) && chars_le(b, a) ==> a == b,
    decreases a.len(),
{
    if a.len() > 0 && b.len() > 0 && c.len() > 0 {
        lemma_chars_le_total_order(a.drop_first(), b.drop_first(), c.drop_first());
    } else if a.len() > 0 && b.len() > 0 {
        lemma_chars_le_total_order(a.drop_first(), b.drop_first(), a.drop_first());
    } else if a.len() > 0 {
        lemma_chars_le_total_order(a.drop_first(), a.drop_first(), a.drop_first());
    }
    if a.len() > 0 && b.len() > 0 && a[0] == b[0] && chars_le(a, b) && chars_le(b, a) {
        assert(a.drop_first() == b.drop_first());
        assert(a =~= seq![a[0]] + a.drop_first());
        assert(b =~= seq![b[0]] + b.drop_first());
    }
}

/// Whether `a` comes no later than `b` in the order of `str`.
pub fn str_le(a: &str, b: &str) -> (res: bool)
    ensures
        res == chars_le(a@, b@),
{
    let x = chars_of(a);
    let y = chars_of(b);
    let mut i: usize = 0;
    assert(x@.skip(0) =~= x@);
    assert(y@.skip(0) =~= y@);
    while i < x.len() && i < y.len() && x[i] == y[i]
        invariant
            i <= x@.len(),
            i <= y@.len(),
            x@ == a@,
            y@ == b@,
            chars_le(a@, b@) == chars_le(x@.skip(i as int), y@.skip(i as int)),
        decreases x@.len() - i,
    {
        assert(x@.skip(i as int).drop_first() =~= x@.skip(i + 1));
        assert(y@.skip(i as int).drop_first() =~= y@.skip(i + 1));
        i += 1;
    }
    if i == x.len() {
        true
    } else if i == y.len() {
        false
    } else {
        x[i] < y[i]
    }
}

/// Whether entries are in order of their paths.
pub open spec fn sorted_by_path(entries: Seq<PdfEntry>) -> bool {
    forall|i: int, j: int|
        0 <= i < j < entries.len() ==> chars_le(#[trigger] entries[i].path@, #[trigger] entries[j].path@)
}

/// The entries of `s` whose path is `k`, in order.
pub open spec fn with_path(s: Seq<PdfEntry>, k: Seq<char>) -> Seq<PdfEntry>
    decreases s.len(),
{
    if s.len() == 0 {
        Seq::empty()
    } else if s.last().path@ == k {
        with_path(s.drop_last(), k).push(s.last())
    } else {
        with_path(s.drop_last(), k)
    }
}

proof fn lemma_with_path_add(a: Seq<PdfEntry>, b: Seq<PdfEntry>, k: Seq<char>)
    ensures
        with_path(a + b, k) == with_path(a, k) + with_path(b, k),
    decreases b.len(),
{
    if b.len() == 0 {
        assert(a + b =~= a);
        assert(with_path(a, k) + with_path(b, k) =~= with_path(a, k));
    } else {
        assert((a + b).drop_last() =~= a + b.drop_last());
        lemma_with_path_add(a, b.drop_last(), k);
        if b.last().path@ == k {
            assert(with_path(a, k) + with_path(b.drop_last(), k).push(b.last()) =~= (with_path(a, k)
                + with_path(b.drop_last(), k)).push(b.last()));
        }
    }
}

proof fn lemma_with_path_none(s: Seq<PdfEntry>, k: Seq<char>)
    requires
        forall|j: int| 0 <= j < s.len() ==> (#[trigger] s[j]).path@ != k,
    ensures
        with_path(s, k) == Seq::<PdfEntry>::empty(),
    decreases s.len(),
{
    if s.len() > 0 {
        lemma_with_path_none(s.drop_last(), k);
    }
}

proof fn lemma_with_path_insert(s: Seq<PdfEntry>, pos: int, e: PdfEntry, k: Seq<char>)
    requires
        0 <= pos <= s.len(),
        forall|j: int| pos <= j < s.len() ==> (#[trigger] s[j]).path@ != e.path@,
    ensures
        with_path(s.insert(pos, e), k) == if e.path@ == k {
            with_path(s, k).push(e)
        } else {
            with_path(s, k)
        },
{
    let s1 = s.subrange(0, pos);
    let s2 = s.subrange(pos, s.len() as int);
    assert(s =~= s1 + s2);
    assert(s.insert(pos, e) =~= (s1 + seq![e]) + s2);
    lemma_with_path_add(s1 + seq![e], s2, k);
    lemma_with_path_add(s1, seq![e], k);
    lemma_with_path_add(s1, s2, k);
    let single: Seq<PdfEntry> = seq![e];
    assert(single.drop_last() =~= Seq::<PdfEntry>::empty());
    assert(with_path(Seq::<PdfEntry>::empty(), k) =~= Seq::<PdfEntry>::empty());
    assert(single.len() == 1 && single.last() == e);
    if e.path@ == k {
        lemma_with_path_none(s2, k);
        assert(with_path(single, k) =~= Seq::<PdfEntry>::empty().push(e));
        assert(with_path(single, k) =~= seq![e]);
        assert(with_path(s1, k) + seq![e] + Seq::<PdfEntry>::empty() =~= (with_path(s1, k)
            + Seq::<PdfEntry>::empty()).push(e));
    } else {
        assert(with_path(single, k) =~= Seq::<PdfEntry>::empty());
        assert(with_path(s1, k) + Seq::<PdfEntry>::empty() =~= with_path(s1, k));
    }
}

/// The entries ordered by path, as `sort_by(|a, b| a.path.cmp(&b.path))`
/// orders them: the same entries, in order of their paths, and entries with
/// equal paths in the order in which they came.
pub fn sort_pdf_entries(entries: Vec<PdfEntry>) -> (res: Vec<PdfEntry>)
    ensures
        res@.to_multiset() == entries@.to_multiset(),
        sorted_by_path(res@),
        forall|k: Seq<char>| #[trigger] with_path(res@, k) == with_path(entries@, k),
{
    broadcast use vstd::seq_lib::group_to_multiset_ensures;
    let ghost all = entries@;
    let mut rest = entries;
    let mut out: Vec<PdfEntry> = Vec::new();
    let ghost mut done: int = 0;
    assert(out@.to_multiset().add(rest@.to_multiset()) =~= all.to_multiset());
    assert(all.skip(0) =~= all);
    assert forall|k: Seq<char>| #[trigger] with_path(out@, k) == with_path(all.take(0), k) by {
        assert(all.take(0) =~= Seq::<PdfEntry>::empty());
    }
    while rest.len() > 0
        invariant
            out@.to_multiset().add(rest@.to_multiset()) == all.to_multiset(),
            sorted_by_path(out@),
            0 <= done <= all.len(),
            rest@ == all.skip(done),
            forall|k: Seq<char>| #[trigger] with_path(out@, k) == with_path(all.take(done), k),
        decreases rest@.len(),
    {
        let ghost before_rest = rest@;
        let e = rest.remove(0);
        assert(before_rest.remove(0) == rest@);
        assert(e == all[done]);
        assert(rest@ =~= all.skip(done + 1));
        let n = out.len();
        let mut pos: usize = 0;
        while pos < n && str_le(out[pos].path.as_str(), e.path.as_str())
            invariant
                pos <= n == out@.len(),
                forall|k: int| 0 <= k < pos ==> chars_le(#[trigger] out@[k].path@, e.path@),
            decreases n - pos,
        {
            pos += 1;
        }
        proof {
            if pos < n {
                assert(!chars_le(out@[pos as int].path@, e.path@));
                assert forall|k: int| pos <= k < n implies chars_le(e.path@, #[trigger] out@[k].path@) by {
                    lemma_chars_le_total_order(out@[pos as int].path@, out@[k].path@, e.path@);
                    lemma_chars_le_total_order(e.path@, out@[pos as int].path@, out@[k].path@);
                    if k > pos {
                        assert(chars_le(out@[pos as int].path@, out@[k].path@));
                    }
                }
            }
        }
        let ghost before_out = out@;
        out.insert(pos, e);
        assert(out@ == before_out.insert(pos as int, e));
        assert forall|i: int, j: int| 0 <= i < j < out@.len() implies chars_le(
            #[trigger] out@[i].path@,
            #[trigger] out@[j].path@,
        ) by {
            if j < pos {
                assert(out@[i] == before_out[i] && out@[j] == before_out[j]);
            } else if j == pos {
                assert(out@[i] == before_out[i]);
            } else if i < pos {
                assert(out@[i] == before_out[i] && out@[j] == before_out[j - 1]);
                lemma_chars_le_total_order(before_out[i].path@, e.path@, before_out[j - 1].path@);
            } else if i == pos {
                assert(out@[j] == before_out[j - 1]);
            } else {
                assert(out@[i] == before_out[i - 1] && out@[j] == before_out[j - 1]);
            }
        }
        proof {
            broadcast use vstd::multiset::group_multiset_axioms;

            vstd::seq_lib::to_multiset_insert(before_out, pos as int, e);
            vstd::seq_lib::to_multiset_remove(before_rest, 0);
            assert(before_rest[0] == e);
            assert(before_rest.contains(e));
            vstd::seq_lib::to_multiset_contains(before_rest, e);
            assert(before_rest.to_multiset().contains(e));
            assert(before_rest.to_multiset() =~= rest@.to_multiset().insert(e));
        }
        assert(out@.to_multiset().add(rest@.to_multiset()) =~= before_out.to_multiset().add(
            before_rest.to_multiset(),
        ));
        proof {
            assert forall|j: int| pos <= j < before_out.len() implies (
            #[trigger] before_out[j]).path@ != e.path@ by {
                lemma_chars_le_total_order(e.path@, e.path@, e.path@);
                if j > pos {
                    assert(chars_le(before_out[pos as int].path@, before_out[j].path@));
                }
            }
            assert forall|k: Seq<char>| #[trigger] with_path(out@, k) == with_path(
                all.take(done + 1),
                k,
            ) by {
                lemma_with_path_insert(before_out, pos as int, e, k);
                assert(all.take(done + 1).drop_last() =~= all.take(done));
                assert(all.take(done + 1).last() == e);
            }
            done = done + 1;
        }
    }
    assert(all.take(done) =~= all);
    assert(rest@.to_multiset() =~= Multiset::<PdfEntry>::empty());
    assert(out@.to_multiset() =~= all.to_multiset());
    out
}

} // verus!

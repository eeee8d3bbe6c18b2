//! Reading the fields of an invoice from the text that `pdftotext` extracted.
use vstd::prelude::*;
use vstd::utf8::decode_utf8;
use vstd::utf8::valid_utf8;

use crate::bindings::regex_accepts_of;
use crate::bindings::regex_captures_all_of;
use crate::bindings::regex_captures_of;
use crate::bindings::gbk_decode;
use crate::bindings::gbk_decode_of;
use crate::bindings::last_segment;
use crate::bindings::names_file_plainly;
use crate::bindings::nfkd;
use crate::bindings::path_file_name;
use crate::bindings::nfkd_of;
use crate::bindings::regex_replace_of;
use crate::bindings::utf8_decode;
use crate::bindings::utf8_lossy;
use crate::bindings::utf8_lossy_of;
use crate::bindings::CompiledRegex;
use crate::numbers::decimal_spec;
use crate::slot::slot_after_set;
use crate::slot::PathSlot;
use crate::numbers::decimal_string;
use crate::numbers::parse_u32;
use crate::numbers::parse_u32_spec;
use crate::numbers::zero_padded;
use crate::numbers::zero_padded_string;
use crate::numbers::lemma_zero_padded_parses_back;
use crate::text::chars_of;
use crate::text::concat2;
use crate::text::concat3;
use crate::text::contains_spec;
use crate::text::contains_str;
use crate::text::find_chars;
use crate::text::first_chars;
use crate::text::prefix_chars;
use crate::text::ends_with_chars;
use crate::text::ends_with_spec;
use crate::text::find_spec;
use crate::text::non_white_prefix;
use crate::text::take_non_white;
use crate::text::lemma_rfind_from_last;
use crate::text::occurs_at;
use crate::text::rfind_chars;
use crate::text::rfind_spec;
use crate::text::slice_chars;
use crate::text::starts_with_spec;
use crate::text::starts_with_str;
use crate::text::trim;
use crate::text::trim_spec;

verus! {

/// The invoice kind in the title line, e.g. `电子发票（普通发票）`.
pub const INVOICE_TYPE_PATTERN: &'static str = r"电子发票[（(](普通发票|专用发票|铁路电子客票)[)）]";

/// A date written `YYYY年M月D日`.
pub const DATE_PATTERN: &'static str = r"(\d{4})\s*年\s*(\d{1,2})\s*月\s*(\d{1,2})\s*日";

/// A date written as eight digits `YYYYMMDD`.
pub const COMPACT_DATE_PATTERN: &'static str = r"\b(\d{4})(\d{2})(\d{2})\b";

/// The number after the `发票号码` label.
pub const INVOICE_NO_PATTERN: &'static str = r"发票号码[：:\s]*([0-9A-Za-z]{8,30})";

/// A run of 20 to 25 digits.
pub const LONG_NUMBER_PATTERN: &'static str = r"\b(\d{20,25})\b";

/// The amount after `（小写）`.
pub const AMOUNT_PATTERN: &'static str = r"[（(]\s*小写\s*[)）]\s*¥?\s*([0-9]+(?:,[0-9]{3})*\.[0-9]{2})";

/// An amount after a yen sign.
pub const YEN_AMOUNT_PATTERN: &'static str = r"¥\s*([0-9]+(?:,[0-9]{3})*\.[0-9]{2})";

/// The buyer after `购 名称：`, up to two or more spaces.
pub const BUYER_NAME_PATTERN: &'static str = r"购\s*名称[：:]\s*([^\n\r]+?)\s{2,}";

/// The buyer after `买 名称：`, up to two or more spaces.
pub const BUYER_NAME_SPLIT_PATTERN: &'static str = r"买\s*名称[：:]\s*(.+?)\s{2,}";

/// The buyer after `买 名称：`, up to the seller's `售名称` or `销名称`.
pub const BUYER_NAME_LOOSE_PATTERN: &'static str = r"买\s*名称[：:]\s*(.+?)\s*[售销]\s*名称";

/// The rest of the line after `购买方名称：`.
pub const BUYER_NAME_FULL_PATTERN: &'static str = r"购买方名称[：:]\s*([^\n\r]+)";

/// The first of two `名称：` labels, up to the second.
pub const BUYER_NAME_BARE_PATTERN: &'static str = r"名称[：:]\s*(.+?)\s+名称[：:]";

/// An item name such as `*餐饮服务*餐费` at the start of a line.
pub const PROJECT_PATTERN: &'static str = r"(?m)^\s*(\*[^*\n]+\*[^\s\n]+)";

/// The labels `发票号码` or `发票代码`.
pub const INVOICE_LABEL_PATTERN: &'static str = r"发票(号码|代码)";

/// A run of at least 20 digits.
pub const DIGIT_RUN_PATTERN: &'static str = r"\b\d{20,}\b";

/// The issue date of a train ticket, after `开票日期：`.
pub const TRAIN_DATE_PATTERN: &'static str = r"开票日期[：:]\s*(\d{4})\s*年\s*(\d{1,2})\s*月\s*(\d{1,2})\s*日";

/// The fare of a train ticket, after `票价：`.
pub const TRAIN_FARE_PATTERN: &'static str = r"票价[：:]\s*¥?\s*([0-9]+(?:\.[0-9]{2})?)";

/// Two or more spaces, the credit-code label and the rest of the line.
pub const CREDIT_CODE_TAIL_PATTERN: &'static str = r"\s{2,}统一社会信用代码.*";

/// Whether the regex crate accepts every pattern above.
pub open spec fn all_patterns_accepted() -> bool {
    &&& regex_accepts_of(INVOICE_TYPE_PATTERN@)
    &&& regex_accepts_of(DATE_PATTERN@)
    &&& regex_accepts_of(COMPACT_DATE_PATTERN@)
    &&& regex_accepts_of(INVOICE_NO_PATTERN@)
    &&& regex_accepts_of(LONG_NUMBER_PATTERN@)
    &&& regex_accepts_of(AMOUNT_PATTERN@)
    &&& regex_accepts_of(YEN_AMOUNT_PATTERN@)
    &&& regex_accepts_of(BUYER_NAME_PATTERN@)
    &&& regex_accepts_of(BUYER_NAME_SPLIT_PATTERN@)
    &&& regex_accepts_of(BUYER_NAME_LOOSE_PATTERN@)
    &&& regex_accepts_of(BUYER_NAME_FULL_PATTERN@)
    &&& regex_accepts_of(BUYER_NAME_BARE_PATTERN@)
    &&& regex_accepts_of(PROJECT_PATTERN@)
    &&& regex_accepts_of(INVOICE_LABEL_PATTERN@)
    &&& regex_accepts_of(DIGIT_RUN_PATTERN@)
    &&& regex_accepts_of(TRAIN_DATE_PATTERN@)
    &&& regex_accepts_of(TRAIN_FARE_PATTERN@)
    &&& regex_accepts_of(CREDIT_CODE_TAIL_PATTERN@)
}

/// The regular expressions that the field extractors use, compiled once.
pub struct InvoicePatterns {
    invoice_type: CompiledRegex,
    date: CompiledRegex,
    compact_date: CompiledRegex,
    invoice_no: CompiledRegex,
    long_number: CompiledRegex,
    amount: CompiledRegex,
    yen_amount: CompiledRegex,
    buyer_name: CompiledRegex,
    buyer_name_split: CompiledRegex,
    buyer_name_loose: CompiledRegex,
    buyer_name_full: CompiledRegex,
    buyer_name_bare: CompiledRegex,
    project: CompiledRegex,
    invoice_label: CompiledRegex,
    digit_run: CompiledRegex,
    train_date: CompiledRegex,
    train_fare: CompiledRegex,
    credit_code_tail: CompiledRegex,
}

impl InvoicePatterns {
    /// Each regular expression was compiled from its pattern above.
    #[verifier::type_invariant]
    spec fn compiled_from_patterns(&self) -> bool {
        &&& self.invoice_type@ == INVOICE_TYPE_PATTERN@
        &&& self.date@ == DATE_PATTERN@
        &&& self.compact_date@ == COMPACT_DATE_PATTERN@
        &&& self.invoice_no@ == INVOICE_NO_PATTERN@
        &&& self.long_number@ == LONG_NUMBER_PATTERN@
        &&& self.amount@ == AMOUNT_PATTERN@
        &&& self.yen_amount@ == YEN_AMOUNT_PATTERN@
        &&& self.buyer_name@ == BUYER_NAME_PATTERN@
        &&& self.buyer_name_split@ == BUYER_NAME_SPLIT_PATTERN@
        &&& self.buyer_name_loose@ == BUYER_NAME_LOOSE_PATTERN@
        &&& self.buyer_name_full@ == BUYER_NAME_FULL_PATTERN@
        &&& self.buyer_name_bare@ == BUYER_NAME_BARE_PATTERN@
        &&& self.project@ == PROJECT_PATTERN@
        &&& self.invoice_label@ == INVOICE_LABEL_PATTERN@
        &&& self.digit_run@ == DIGIT_RUN_PATTERN@
        &&& self.train_date@ == TRAIN_DATE_PATTERN@
        &&& self.train_fare@ == TRAIN_FARE_PATTERN@
        &&& self.credit_code_tail@ == CREDIT_CODE_TAIL_PATTERN@
    }

    /// Compiles every pattern; `None` when the regex crate rejects one.
    pub fn new() -> (res: Option<InvoicePatterns>)
        ensures
            res is Some <==> all_patterns_accepted(),
    {
        let invoice_type = CompiledRegex::compile(INVOICE_TYPE_PATTERN)?;
        let date = CompiledRegex::compile(DATE_PATTERN)?;
        let compact_date = CompiledRegex::compile(COMPACT_DATE_PATTERN)?;
        let invoice_no = CompiledRegex::compile(INVOICE_NO_PATTERN)?;
        let long_number = CompiledRegex::compile(LONG_NUMBER_PATTERN)?;
        let amount = CompiledRegex::compile(AMOUNT_PATTERN)?;
        let yen_amount = CompiledRegex::compile(YEN_AMOUNT_PATTERN)?;
        let buyer_name = CompiledRegex::compile(BUYER_NAME_PATTERN)?;
        let buyer_name_split = CompiledRegex::compile(BUYER_NAME_SPLIT_PATTERN)?;
        let buyer_name_loose = CompiledRegex::compile(BUYER_NAME_LOOSE_PATTERN)?;
        let buyer_name_full = CompiledRegex::compile(BUYER_NAME_FULL_PATTERN)?;
        let buyer_name_bare = CompiledRegex::compile(BUYER_NAME_BARE_PATTERN)?;
        let project = CompiledRegex::compile(PROJECT_PATTERN)?;
        let invoice_label = CompiledRegex::compile(INVOICE_LABEL_PATTERN)?;
        let digit_run = CompiledRegex::compile(DIGIT_RUN_PATTERN)?;
        let train_date = CompiledRegex::compile(TRAIN_DATE_PATTERN)?;
        let train_fare = CompiledRegex::compile(TRAIN_FARE_PATTERN)?;
        let credit_code_tail = CompiledRegex::compile(CREDIT_CODE_TAIL_PATTERN)?;
        Some(
            InvoicePatterns {
                invoice_type,
                date,
                compact_date,
                invoice_no,
                long_number,
                amount,
                yen_amount,
                buyer_name,
                buyer_name_split,
                buyer_name_loose,
                buyer_name_full,
                buyer_name_bare,
                project,
                invoice_label,
                digit_run,
                train_date,
                train_fare,
                credit_code_tail,
            },
        )
    }
}

/// The groups of one regex match, by their views.
pub type Groups = Seq<Option<Seq<char>>>;

/// The text of group `i`, or the empty text where the group is absent. The
/// groups read here always take part in a match of their pattern.
pub open spec fn group_of(caps: Groups, i: int) -> Seq<char> {
    if 0 <= i < caps.len() && caps[i] is Some {
        caps[i]->0
    } else {
        Seq::empty()
    }
}

/// The text of group `i` of a match.
pub fn group_text(caps: &Vec<Option<String>>, i: usize) -> (res: String)
    ensures
        res@ == group_of(caps.deep_view(), i as int),
{
    if i < caps.len() {
        match &caps[i] {
            Some(s) => s.clone(),
            None => String::new(),
        }
    } else {
        String::new()
    }
}

/// A number read with `parse::<u32>()`, zero where it does not parse.
pub open spec fn number_or_zero(s: Seq<char>) -> u32 {
    match parse_u32_spec(s) {
        Some(n) => n,
        None => 0,
    }
}

fn number_or_zero_exec(s: &str) -> (res: u32)
    ensures
        res == number_or_zero(s@),
{
    match parse_u32(s) {
        Some(n) => n,
        None => 0,
    }
}

/// `year年MM月DD日`, with month and day padded to two digits.
pub open spec fn date_text(year: Seq<char>, month: u32, day: u32) -> Seq<char> {
    year + "年"@ + zero_padded(month as nat, 2) + "月"@ + zero_padded(day as nat, 2) + "日"@
}

fn date_text_exec(year: &str, month: u32, day: u32) -> (res: String)
    ensures
        res@ == date_text(year@, month, day),
{
    let m = zero_padded_string(month as u64, 2);
    let d = zero_padded_string(day as u64, 2);
    let a = concat3(year, "年", m.as_str());
    let b = concat3(a.as_str(), "月", d.as_str());
    concat2(b.as_str(), "日")
}

/// The date from a match of [`DATE_PATTERN`] or [`TRAIN_DATE_PATTERN`]: the
/// year as written, month and day as numbers, when the month lies in 1..=12
/// and the day in 1..=31.
pub open spec fn date_from_written_groups(caps: Groups) -> Option<Seq<char>> {
    let month = number_or_zero(group_of(caps, 2));
    let day = number_or_zero(group_of(caps, 3));
    if 1 <= month <= 12 && 1 <= day <= 31 {
        Some(date_text(group_of(caps, 1), month, day))
    } else {
        None
    }
}

/// The date from a match of [`DATE_PATTERN`] or [`TRAIN_DATE_PATTERN`].
pub fn date_from_written_match(caps: &Vec<Option<String>>) -> (res: Option<String>)
    ensures
        res.deep_view() == date_from_written_groups(caps.deep_view()),
{
    let year = group_text(caps, 1);
    let month = number_or_zero_exec(group_text(caps, 2).as_str());
    let day = number_or_zero_exec(group_text(caps, 3).as_str());
    if 1 <= month && month <= 12 && 1 <= day && day <= 31 {
        Some(date_text_exec(year.as_str(), month, day))
    } else {
        None
    }
}

/// The date from a match of [`COMPACT_DATE_PATTERN`], when the year lies in
/// 2020..=2099, the month in 1..=12 and the day in 1..=31.
pub open spec fn date_from_compact_groups(caps: Groups) -> Option<Seq<char>> {
    let year = number_or_zero(group_of(caps, 1));
    let month = number_or_zero(group_of(caps, 2));
    let day = number_or_zero(group_of(caps, 3));
    if 2020 <= year <= 2099 && 1 <= month <= 12 && 1 <= day <= 31 {
        Some(date_text(decimal_spec(year as nat), month, day))
    } else {
        None
    }
}

/// The date from a match of [`COMPACT_DATE_PATTERN`].
pub fn date_from_compact_match(caps: &Vec<Option<String>>) -> (res: Option<String>)
    ensures
        res.deep_view() == date_from_compact_groups(caps.deep_view()),
{
    let year = number_or_zero_exec(group_text(caps, 1).as_str());
    let month = number_or_zero_exec(group_text(caps, 2).as_str());
    let day = number_or_zero_exec(group_text(caps, 3).as_str());
    if 2020 <= year && year <= 2099 && 1 <= month && month <= 12 && 1 <= day && day <= 31 {
        let y = decimal_string(year as u64);
        Some(date_text_exec(y.as_str(), month, day))
    } else {
        None
    }
}

/// The first date that a match in `all` yields.
pub open spec fn first_compact_date(all: Seq<Groups>) -> Option<Seq<char>>
    decreases all.len(),
{
    if all.len() == 0 {
        None
    } else {
        match date_from_compact_groups(all[0]) {
            Some(d) => Some(d),
            None => first_compact_date(all.drop_first()),
        }
    }
}

/// The first date that one of the matches of [`COMPACT_DATE_PATTERN`] yields.
pub fn first_compact_date_of(all: &Vec<Vec<Option<String>>>) -> (res: Option<String>)
    ensures
        res.deep_view() == first_compact_date(all.deep_view()),
{
    let n = all.len();
    let mut i: usize = 0;
    assert(all.deep_view().skip(0) =~= all.deep_view());
    while i < n
        invariant
            i <= n == all@.len(),
            first_compact_date(all.deep_view()) == first_compact_date(all.deep_view().skip(i as int)),
        decreases n - i,
    {
        let ghost rest = all.deep_view().skip(i as int);
        assert(rest[0] == all@[i as int].deep_view());
        assert(rest.drop_first() =~= all.deep_view().skip(i + 1));
        match date_from_compact_match(&all[i]) {
            Some(d) => {
                return Some(d);
            },
            None => {},
        }
        i += 1;
    }
    None
}


/// The groups of the first match of `pattern` in `text`, by their views.
pub open spec fn first_match(pattern: &'static str, text: Seq<char>) -> Option<Groups> {
    regex_captures_of(pattern@, text)
}

/// Group 1 of the first match of `pattern` in `text`.
pub open spec fn first_group1(pattern: &'static str, text: Seq<char>) -> Option<Seq<char>> {
    match first_match(pattern, text) {
        Some(c) => Some(group_of(c, 1)),
        None => None,
    }
}

fn first_group1_exec(re: &CompiledRegex, text: &str) -> (res: Option<String>)
    ensures
        res matches Some(g) ==> regex_captures_of(re@, text@) matches Some(c) && g@ == group_of(
            c,
            1,
        ),
        res matches Some(g) ==> contains_spec(text@, g@),
        res is None ==> regex_captures_of(re@, text@) is None,
{
    match re.captures(text) {
        Some(c) => {
            let g = group_text(&c, 1);
            proof {
                if 1 < c@.len() && c@[1] is Some {
                    let x = c@[1]->0;
                    assert(c@[1] matches Some(y) ==> contains_spec(text@, y@));
                    assert(c.deep_view()[1] == c@[1].deep_view());
                    assert(g@ == x@);
                } else {
                    assert(c.deep_view().len() == c@.len());
                    if 1 < c@.len() {
                        assert(c.deep_view()[1] == c@[1].deep_view());
                    }
                    assert(text@.subrange(0, 0) =~= g@);
                }
            }
            Some(g)
        },
        None => None,
    }
}

/// Whether the text carries an invoice label or a run of at least 20 digits.
pub open spec fn looks_like_invoice_spec(text: Seq<char>) -> bool {
    first_match(INVOICE_LABEL_PATTERN, text) is Some || first_match(DIGIT_RUN_PATTERN, text) is Some
}

/// Whether the text reads like an invoice.
pub fn looks_like_invoice(patterns: &InvoicePatterns, text: &str) -> (res: bool)
    ensures
        res == looks_like_invoice_spec(text@),
{
    proof {
        use_type_invariant(patterns);
    }
    if patterns.invoice_label.captures(text).is_some() {
        return true;
    }
    patterns.digit_run.captures(text).is_some()
}

/// The invoice kind for the label inside `电子发票（…）`.
pub open spec fn invoice_type_for_label(label: Seq<char>) -> Seq<char> {
    if label == "普通发票"@ {
        "普通发票"@
    } else if label == "专用发票"@ {
        "专用发票"@
    } else {
        Seq::empty()
    }
}

/// The invoice kind for the label inside `电子发票（…）`.
pub fn invoice_type_for_label_exec(label: &str) -> (res: String)
    ensures
        res@ == invoice_type_for_label(label@),
{
    let ordinary = "普通发票".to_owned();
    let special = "专用发票".to_owned();
    let l = label.to_owned();
    if l == ordinary {
        ordinary
    } else if l == special {
        special
    } else {
        String::new()
    }
}

/// The kind of invoice: `普通发票`, `专用发票` or empty.
pub open spec fn invoice_type_spec(text: Seq<char>) -> Seq<char> {
    if contains_spec(text, "铁路电子客票"@) {
        "普通发票"@
    } else {
        match first_group1(INVOICE_TYPE_PATTERN, text) {
            Some(label) => invoice_type_for_label(label),
            None => if contains_spec(text, "专用发票"@) {
                "专用发票"@
            } else if contains_spec(text, "普通发票"@) {
                "普通发票"@
            } else {
                Seq::empty()
            },
        }
    }
}

/// The kind of invoice: `普通发票`, `专用发票` or empty. A railway ticket is
/// an ordinary invoice, and the kind is empty when none of the words
/// `铁路电子客票`, `专用发票` and `普通发票` occurs. The converse holds as far
/// as the title pattern's group, when it matches, is one of its three
/// alternatives.
pub fn detect_invoice_type(patterns: &InvoicePatterns, text: &str) -> (res: String)
    ensures
        res@ == invoice_type_spec(text@),
        res@ == "普通发票"@ || res@ == "专用发票"@ || res@.len() == 0,
        contains_spec(text@, "铁路电子客票"@) ==> res@ == "普通发票"@,
        !contains_spec(text@, "铁路电子客票"@) && !contains_spec(text@, "专用发票"@)
            && !contains_spec(text@, "普通发票"@) ==> res@.len() == 0,
        res@.len() == 0 && (first_group1(INVOICE_TYPE_PATTERN, text@) matches Some(l) ==> (l
            == "普通发票"@ || l == "专用发票"@ || l == "铁路电子客票"@)) ==> !contains_spec(
            text@,
            "铁路电子客票"@,
        ) && !contains_spec(text@, "专用发票"@) && !contains_spec(text@, "普通发票"@),
{
    proof {
        use_type_invariant(patterns);
        reveal_strlit("普通发票");
        reveal_strlit("专用发票");
        reveal_strlit("铁路电子客票");
    }
    if contains_str(text, "铁路电子客票") {
        return "普通发票".to_owned();
    }
    match first_group1_exec(&patterns.invoice_type, text) {
        Some(label) => {
            invoice_type_for_label_exec(label.as_str())
        },
        None => {
            if contains_str(text, "专用发票") {
                "专用发票".to_owned()
            } else if contains_str(text, "普通发票") {
                "普通发票".to_owned()
            } else {
                String::new()
            }
        },
    }
}

/// The issue date from the first match of [`DATE_PATTERN`] when it gives a
/// valid date, else from the first match of [`COMPACT_DATE_PATTERN`] that
/// gives one, else empty.
pub open spec fn issue_date_from_matches_spec(written: Option<Groups>, compact: Seq<Groups>) -> Seq<
    char,
> {
    let from_written = match written {
        Some(c) => date_from_written_groups(c),
        None => None,
    };
    match from_written {
        Some(d) => d,
        None => match first_compact_date(compact) {
            Some(d) => d,
            None => Seq::empty(),
        },
    }
}

/// The issue date from the matches of the two date patterns.
pub fn issue_date_from_matches(
    written: &Option<Vec<Option<String>>>,
    compact: &Vec<Vec<Option<String>>>,
) -> (res: String)
    ensures
        res@ == issue_date_from_matches_spec(written.deep_view(), compact.deep_view()),
{
    if let Some(c) = written {
        if let Some(d) = date_from_written_match(c) {
            return d;
        }
    }
    match first_compact_date_of(compact) {
        Some(d) => d,
        None => String::new(),
    }
}

/// The issue date: from the first written date when it is a valid one, else
/// from the first valid eight-digit date, else empty.
pub open spec fn issue_date_spec(text: Seq<char>) -> Seq<char> {
    issue_date_from_matches_spec(
        first_match(DATE_PATTERN, text),
        regex_captures_all_of(COMPACT_DATE_PATTERN@, text),
    )
}

/// The issue date, as `YYYY年MM月DD日`, or empty.
pub fn extract_issue_date(patterns: &InvoicePatterns, text: &str) -> (res: String)
    ensures
        res@ == issue_date_spec(text@),
{
    proof {
        use_type_invariant(patterns);
    }
    let written = patterns.date.captures(text);
    let compact = patterns.compact_date.captures_all(text);
    issue_date_from_matches(&written, &compact)
}

/// The invoice number: after `发票号码`, else the first run of 20 to 25 digits.
pub open spec fn invoice_no_spec(text: Seq<char>) -> Seq<char> {
    match first_group1(INVOICE_NO_PATTERN, text) {
        Some(g) => g,
        None => match first_group1(LONG_NUMBER_PATTERN, text) {
            Some(g) => g,
            None => Seq::empty(),
        },
    }
}

/// The invoice number, or empty.
pub fn extract_invoice_no(patterns: &InvoicePatterns, text: &str) -> (res: String)
    ensures
        res@ == invoice_no_spec(text@),
{
    proof {
        use_type_invariant(patterns);
    }
    match first_group1_exec(&patterns.invoice_no, text) {
        Some(g) => g,
        None => match first_group1_exec(&patterns.long_number, text) {
            Some(g) => g,
            None => String::new(),
        },
    }
}

/// `s` without its thousands separators.
pub open spec fn strip_commas(s: Seq<char>) -> Seq<char> {
    s.filter(|c: char| c != ',')
}

/// The amount: after `（小写）`, else after a yen sign, without commas.
pub open spec fn amount_spec(text: Seq<char>) -> Seq<char> {
    match first_group1(AMOUNT_PATTERN, text) {
        Some(g) => strip_commas(g),
        None => match first_group1(YEN_AMOUNT_PATTERN, text) {
            Some(g) => strip_commas(g),
            None => Seq::empty(),
        },
    }
}

/// The amount, without thousands separators, or empty.
pub fn extract_amount(patterns: &InvoicePatterns, text: &str) -> (res: String)
    ensures
        res@ == amount_spec(text@),
{
    proof {
        use_type_invariant(patterns);
    }
    match first_group1_exec(&patterns.amount, text) {
        Some(g) => crate::text::remove_char(g.as_str(), ','),
        None => match first_group1_exec(&patterns.yen_amount, text) {
            Some(g) => crate::text::remove_char(g.as_str(), ','),
            None => String::new(),
        },
    }
}


/// The buyer in a `购买方名称` line: the trimmed text before the credit-code
/// label, when the line carries one.
pub open spec fn cut_at_credit_code_spec(raw: Seq<char>) -> Seq<char> {
    match find_spec(raw, "统一社会信用代码"@) {
        Some(p) => trim_spec(raw.subrange(0, p)),
        None => raw,
    }
}

/// The buyer in a trimmed `购买方名称` line.
pub fn cut_at_credit_code(raw: &str) -> (res: String)
    ensures
        res@ == cut_at_credit_code_spec(raw@),
{
    let hay = chars_of(raw);
    let label = chars_of("统一社会信用代码");
    match find_chars(hay.as_slice(), label.as_slice()) {
        Some(p) => {
            let head = slice_chars(hay.as_slice(), 0, p);
            trim(head.as_str())
        },
        None => raw.to_owned(),
    }
}

/// A buyer read after `买 名称：` up to two spaces is kept unless it is the
/// seller's label.
pub open spec fn split_name_candidate(group: Seq<char>) -> Option<Seq<char>> {
    let v = trim_spec(group);
    if !starts_with_spec(v, "售"@) && !contains_spec(v, "售 名称"@) {
        Some(v)
    } else {
        None
    }
}

/// The buyer read after `买 名称：` up to two spaces, unless it is the
/// seller's label.
pub fn split_name_candidate_exec(group: &str) -> (res: Option<String>)
    ensures
        res.deep_view() == split_name_candidate(group@),
{
    let v = trim(group);
    if !starts_with_str(v.as_str(), "售") && !contains_str(v.as_str(), "售 名称") {
        Some(v)
    } else {
        None
    }
}

/// A buyer read after `买 名称：` up to the seller's label is kept when it
/// is not empty and is not the seller's label.
pub open spec fn loose_name_candidate(group: Seq<char>) -> Option<Seq<char>> {
    let v = trim_spec(group);
    if v.len() > 0 && !starts_with_spec(v, "售"@) {
        Some(v)
    } else {
        None
    }
}

/// The buyer read after `买 名称：` up to the seller's label, when it is not
/// empty and is not the seller's label.
pub fn loose_name_candidate_exec(group: &str) -> (res: Option<String>)
    ensures
        res.deep_view() == loose_name_candidate(group@),
{
    let v = trim(group);
    if !v.as_str().is_empty() && !starts_with_str(v.as_str(), "售") {
        Some(v)
    } else {
        None
    }
}

/// The buyer from group 1 of the first matches of the `购 名称`,
/// `购买方名称`, `买 名称` (up to two spaces), `买 名称` (up to the seller)
/// and bare `名称` patterns, tried in that order.
pub open spec fn buyer_from_groups_spec(
    name: Option<Seq<char>>,
    full: Option<Seq<char>>,
    split: Option<Seq<char>>,
    loose: Option<Seq<char>>,
    bare: Option<Seq<char>>,
) -> Seq<char> {
    match name {
        Some(g) => trim_spec(g),
        None => match full {
            Some(g) => cut_at_credit_code_spec(trim_spec(g)),
            None => {
                let s = match split {
                    Some(g) => split_name_candidate(g),
                    None => None,
                };
                let l = match loose {
                    Some(g) => loose_name_candidate(g),
                    None => None,
                };
                match s {
                    Some(v) => v,
                    None => match l {
                        Some(v) => v,
                        None => match bare {
                            Some(g) => trim_spec(g),
                            None => Seq::empty(),
                        },
                    },
                }
            },
        },
    }
}

/// The buyer from the groups the buyer patterns captured.
pub fn buyer_from_groups(
    name: Option<String>,
    full: Option<String>,
    split: Option<String>,
    loose: Option<String>,
    bare: Option<String>,
) -> (res: String)
    ensures
        res@ == buyer_from_groups_spec(
            name.deep_view(),
            full.deep_view(),
            split.deep_view(),
            loose.deep_view(),
            bare.deep_view(),
        ),
{
    if let Some(g) = name {
        return trim(g.as_str());
    }
    if let Some(g) = full {
        let raw = trim(g.as_str());
        return cut_at_credit_code(raw.as_str());
    }
    if let Some(g) = split {
        if let Some(v) = split_name_candidate_exec(g.as_str()) {
            return v;
        }
    }
    if let Some(g) = loose {
        if let Some(v) = loose_name_candidate_exec(g.as_str()) {
            return v;
        }
    }
    if let Some(g) = bare {
        return trim(g.as_str());
    }
    String::new()
}

/// The buyer after the `购 名称`, `购买方名称`, `买 名称` (two ways) and bare
/// `名称` labels, tried in that order.
pub open spec fn buyer_spec(text: Seq<char>) -> Seq<char> {
    buyer_from_groups_spec(
        first_group1(BUYER_NAME_PATTERN, text),
        first_group1(BUYER_NAME_FULL_PATTERN, text),
        first_group1(BUYER_NAME_SPLIT_PATTERN, text),
        first_group1(BUYER_NAME_LOOSE_PATTERN, text),
        first_group1(BUYER_NAME_BARE_PATTERN, text),
    )
}

/// The buyer's name, or empty.
pub fn extract_buyer(patterns: &InvoicePatterns, text: &str) -> (res: String)
    ensures
        res@ == buyer_spec(text@),
{
    proof {
        use_type_invariant(patterns);
    }
    let name = first_group1_exec(&patterns.buyer_name, text);
    let full = first_group1_exec(&patterns.buyer_name_full, text);
    let split = first_group1_exec(&patterns.buyer_name_split, text);
    let loose = first_group1_exec(&patterns.buyer_name_loose, text);
    let bare = first_group1_exec(&patterns.buyer_name_bare, text);
    buyer_from_groups(name, full, split, loose, bare)
}

/// Whether `c` lies in the basic CJK Unified Ideographs block.
pub open spec fn is_cjk_ideograph(c: char) -> bool {
    '\u{4e00}' <= c && c <= '\u{9fff}'
}

/// `s` without `suffix` at its end, if it ends so.
pub open spec fn strip_suffix_spec(s: Seq<char>, suffix: Seq<char>) -> Seq<char> {
    if ends_with_spec(s, suffix) {
        s.subrange(0, s.len() - suffix.len())
    } else {
        s
    }
}

/// The buyer named in a file name `prefix_number_company[_date].pdf`: the
/// part after the last `_` once `.pdf` and a trailing `_date` part are cut
/// off, when it holds a CJK ideograph; else empty.
pub open spec fn buyer_from_filename_spec(file_name: Seq<char>) -> Seq<char> {
    company_part(filename_stem(file_name))
}

/// Whether a part of a file name is a date such as `20260324193919`: it
/// starts with `20` and holds only ASCII digits.
pub open spec fn is_date_part(part: Seq<char>) -> bool {
    &&& starts_with_spec(part, seq!['2', '0'])
    &&& forall|i: int| 0 <= i < part.len() ==> '0' <= #[trigger] part[i] <= '9'
}

/// The file name without `.pdf` and without a trailing `_date` part.
pub open spec fn filename_stem(file_name: Seq<char>) -> Seq<char> {
    let stem = strip_suffix_spec(file_name, seq!['.', 'p', 'd', 'f']);
    match rfind_spec(stem, seq!['_']) {
        Some(p) => if is_date_part(stem.subrange(p + 1, stem.len() as int)) {
            stem.subrange(0, p)
        } else {
            stem
        },
        None => stem,
    }
}

/// Whether the characters of `s` from `from` on form a date part.
fn is_date_part_from(s: &[char], from: usize) -> (res: bool)
    requires
        from <= s@.len(),
    ensures
        res == is_date_part(s@.subrange(from as int, s@.len() as int)),
{
    let n = s.len();
    let ghost part = s@.subrange(from as int, n as int);
    if n - from < 2 || s[from] != '2' || s[from + 1] != '0' {
        proof {
            if n - from >= 2 {
                assert(part.subrange(0, 2)[0] == s@[from as int]);
                assert(part.subrange(0, 2)[1] == s@[from + 1]);
            }
        }
        return false;
    }
    assert(part.subrange(0, 2) =~= seq!['2', '0']);
    let mut i = from;
    while i < n
        invariant
            from <= i <= n == s@.len(),
            part == s@.subrange(from as int, n as int),
            forall|k: int| 0 <= k < i - from ==> '0' <= #[trigger] part[k] <= '9',
        decreases n - i,
    {
        if s[i] < '0' || s[i] > '9' {
            assert(part[i - from] == s@[i as int]);
            return false;
        }
        assert(part[i - from] == s@[i as int]);
        i += 1;
    }
    true
}

/// The part of `stem` after its last `_`, when that part holds a CJK
/// ideograph; else empty.
pub open spec fn company_part(stem: Seq<char>) -> Seq<char> {
    match rfind_spec(stem, seq!['_']) {
        Some(p) => {
            let tail = stem.subrange(p + 1, stem.len() as int);
            if exists|i: int| 0 <= i < tail.len() && is_cjk_ideograph(#[trigger] tail[i]) {
                tail
            } else {
                Seq::empty()
            }
        },
        None => Seq::empty(),
    }
}

/// Whether some character of `s` at or after `from` is a CJK ideograph.
fn has_cjk_from(s: &[char], from: usize) -> (res: bool)
    requires
        from <= s@.len(),
    ensures
        res == exists|k: int| from <= k < s@.len() && is_cjk_ideograph(#[trigger] s@[k]),
{
    let n = s.len();
    let mut i = from;
    while i < n
        invariant
            from <= i <= n == s@.len(),
            forall|k: int| from <= k < i ==> !is_cjk_ideograph(#[trigger] s@[k]),
        decreases n - i,
    {
        let c = s[i];
        if '\u{4e00}' <= c && c <= '\u{9fff}' {
            assert(is_cjk_ideograph(s@[i as int]));
            return true;
        }
        i += 1;
    }
    false
}

/// The buyer named in a file name, or empty.
pub fn extract_buyer_from_filename(file_name: &str) -> (res: String)
    ensures
        res@ == buyer_from_filename_spec(file_name@),
{
    let name = chars_of(file_name);
    let pdf = vec!['.', 'p', 'd', 'f'];
    let underscore = vec!['_'];
    assert(pdf@ =~= seq!['.', 'p', 'd', 'f']);
    assert(underscore@ =~= seq!['_']);
    let stem_len = if ends_with_chars(name.as_slice(), pdf.as_slice()) {
        name.len() - 4
    } else {
        name.len()
    };
    let stem = slice_chars(name.as_slice(), 0, stem_len);
    let stem_chars = chars_of(stem.as_str());
    let stem2_len = match rfind_chars(stem_chars.as_slice(), underscore.as_slice()) {
        Some(p) => if is_date_part_from(stem_chars.as_slice(), p + 1) {
            p
        } else {
            stem_chars.len()
        },
        None => stem_chars.len(),
    };
    proof {
        if stem2_len == stem_chars@.len() {
            assert(stem_chars@.subrange(0, stem2_len as int) =~= stem_chars@);
        }
    }
    let stem2 = slice_chars(stem_chars.as_slice(), 0, stem2_len);
    let s2 = chars_of(stem2.as_str());
    assert(stem@ == strip_suffix_spec(file_name@, seq!['.', 'p', 'd', 'f']));
    assert(s2@ == filename_stem(file_name@));
    match rfind_chars(s2.as_slice(), underscore.as_slice()) {
        Some(p) => {
            let n = s2.len();
            let ghost tail = s2@.subrange(p + 1, n as int);
            assert(rfind_spec(s2@, seq!['_']) == Some(p as int));
            if has_cjk_from(s2.as_slice(), p + 1) {
                proof {
                    let k = choose|k: int| p + 1 <= k < n && is_cjk_ideograph(#[trigger] s2@[k]);
                    assert(is_cjk_ideograph(tail[k - (p + 1)]));
                    let r = rfind_spec(s2@, seq!['_']);
                    assert(r->0 == p as int);
                    assert(company_part(s2@) == tail);
                }
                slice_chars(s2.as_slice(), p + 1, n)
            } else {
                assert forall|k: int| 0 <= k < tail.len() implies !is_cjk_ideograph(
                    #[trigger] tail[k],
                ) by {
                    assert(tail[k] == s2@[k + p + 1]);
                }
                assert(company_part(s2@) == Seq::<char>::empty());
                String::new()
            }
        },
        None => {
            assert(company_part(s2@) == Seq::<char>::empty());
            String::new()
        },
    }
}

/// The item name: the first line that starts with `*kind*name`, trimmed.
pub open spec fn project_name_spec(text: Seq<char>) -> Seq<char> {
    match first_group1(PROJECT_PATTERN, text) {
        Some(g) => trim_spec(g),
        None => Seq::empty(),
    }
}

/// The item name, or empty.
pub fn extract_project_name(patterns: &InvoicePatterns, text: &str) -> (res: String)
    ensures
        res@ == project_name_spec(text@),
{
    proof {
        use_type_invariant(patterns);
    }
    match first_group1_exec(&patterns.project, text) {
        Some(g) => trim(g.as_str()),
        None => String::new(),
    }
}

/// The issue date of a train ticket: after `开票日期` when valid, else as for
/// other invoices.
pub open spec fn train_date_spec(text: Seq<char>) -> Seq<char> {
    match first_match(TRAIN_DATE_PATTERN, text) {
        Some(c) => match date_from_written_groups(c) {
            Some(d) => d,
            None => issue_date_spec(text),
        },
        None => issue_date_spec(text),
    }
}

/// The issue date of a train ticket, or empty.
pub fn train_extract_date(patterns: &InvoicePatterns, text: &str) -> (res: String)
    ensures
        res@ == train_date_spec(text@),
{
    proof {
        use_type_invariant(patterns);
    }
    match patterns.train_date.captures(text) {
        Some(c) => match date_from_written_match(&c) {
            Some(d) => {
                return d;
            },
            None => {},
        },
        None => {},
    }
    extract_issue_date(patterns, text)
}

/// The amount of a train ticket: the fare, else as for other invoices.
pub open spec fn train_amount_spec(text: Seq<char>) -> Seq<char> {
    match first_group1(TRAIN_FARE_PATTERN, text) {
        Some(g) => g,
        None => amount_spec(text),
    }
}

/// The amount of a train ticket, or empty.
pub fn train_extract_amount(patterns: &InvoicePatterns, text: &str) -> (res: String)
    ensures
        res@ == train_amount_spec(text@),
{
    proof {
        use_type_invariant(patterns);
    }
    match first_group1_exec(&patterns.train_fare, text) {
        Some(g) => g,
        None => extract_amount(patterns, text),
    }
}

/// The buyer of a train ticket: the `购买方名称` line with the credit-code
/// part removed, else as for other invoices.
pub open spec fn train_buyer_spec(text: Seq<char>) -> Seq<char> {
    match first_group1(BUYER_NAME_FULL_PATTERN, text) {
        Some(g) => trim_spec(regex_replace_of(CREDIT_CODE_TAIL_PATTERN@, trim_spec(g), ""@)),
        None => buyer_spec(text),
    }
}

/// The buyer of a train ticket, or empty.
pub fn train_extract_buyer(patterns: &InvoicePatterns, text: &str) -> (res: String)
    ensures
        res@ == train_buyer_spec(text@),
{
    proof {
        use_type_invariant(patterns);
    }
    match first_group1_exec(&patterns.buyer_name_full, text) {
        Some(g) => {
            let raw = trim(g.as_str());
            let cut = patterns.credit_code_tail.replace(raw.as_str(), "");
            trim(cut.as_str())
        },
        None => extract_buyer(patterns, text),
    }
}


/// The fields of a parsed invoice, by their views.
pub struct InvoiceFields {
    pub file: Seq<char>,
    pub file_name: Seq<char>,
    pub invoice_type: Seq<char>,
    pub issue_date: Seq<char>,
    pub invoice_no: Seq<char>,
    pub amount: Seq<char>,
    pub buyer: Seq<char>,
    pub project_name: Seq<char>,
    pub category: Seq<char>,
    pub owner: Seq<char>,
    pub is_invoice_pdf: bool,
    pub error: Option<Seq<char>>,
    pub debug_text: Seq<char>,
}

/// What was read from one invoice file.
#[derive(Debug)]
pub struct ParsedInvoice {
    pub file: String,
    pub file_name: String,
    pub invoice_type: String,
    pub issue_date: String,
    pub invoice_no: String,
    pub amount: String,
    pub buyer: String,
    pub project_name: String,
    pub category: String,
    /// The person the invoice is reimbursed to (the folder it was found in).
    pub owner: String,
    pub is_invoice_pdf: bool,
    pub error: Option<String>,
    /// The first 200 characters of the extracted text, for diagnosis.
    pub debug_text: String,
}

impl View for ParsedInvoice {
    type V = InvoiceFields;

    open spec fn view(&self) -> InvoiceFields {
        InvoiceFields {
            file: self.file@,
            file_name: self.file_name@,
            invoice_type: self.invoice_type@,
            issue_date: self.issue_date@,
            invoice_no: self.invoice_no@,
            amount: self.amount@,
            buyer: self.buyer@,
            project_name: self.project_name@,
            category: self.category@,
            owner: self.owner@,
            is_invoice_pdf: self.is_invoice_pdf,
            error: self.error.deep_view(),
            debug_text: self.debug_text@,
        }
    }
}

/// A PDF file found in a work folder, with the person it belongs to (the
/// name of the top-level folder it was found under).
pub struct PdfEntry {
    pub path: String,
    pub owner: String,
}

/// One invoice file with the outcome of running `pdftotext` on it: its
/// output, or the message that says why there is none.
pub struct PdfExtraction {
    pub path: String,
    pub owner: String,
    pub output: Result<String, String>,
}

/// The outcome of `pdftotext`, by views.
pub open spec fn output_view(output: &Result<String, String>) -> Result<Seq<char>, Seq<char>> {
    match output {
        Ok(s) => Ok(s@),
        Err(e) => Err(e@),
    }
}

/// The text to read and the error to report for an outcome of `pdftotext`:
/// output that is all white space counts as an error, other output is put
/// in compatibility decomposition (NFKD).
pub open spec fn extracted_text_spec(output: Result<Seq<char>, Seq<char>>) -> (
    Seq<char>,
    Option<Seq<char>>,
) {
    match output {
        Ok(s) => if trim_spec(s).len() != 0 {
            (nfkd_of(s), None)
        } else {
            (Seq::empty(), Some("pdftotext输出为空"@))
        },
        Err(e) => (Seq::empty(), Some(e)),
    }
}

/// The text to read and the error to report for an outcome of `pdftotext`.
pub fn extract_text(output: &Result<String, String>) -> (res: (String, Option<String>))
    ensures
        (res.0@, res.1.deep_view()) == extracted_text_spec(output_view(output)),
{
    match output {
        Ok(s) => {
            let t = trim(s.as_str());
            if !t.as_str().is_empty() {
                (nfkd(s.as_str()), None)
            } else {
                (String::new(), Some("pdftotext输出为空".to_owned()))
            }
        },
        Err(e) => (String::new(), Some(e.clone())),
    }
}

/// Whether the text is that of a railway e-ticket.
pub open spec fn is_train_ticket(text: Seq<char>) -> bool {
    contains_spec(text, "铁路电子客票"@) || contains_spec(text, "铁路"@)
}

/// The message for a file whose text does not read like an invoice.
pub open spec fn not_invoice_message(text: Seq<char>) -> Seq<char> {
    "非发票(特征不足),已跳过 ["@ + take_non_white(text, 40) + "]"@
}

/// The invoice read from one file: its path, name and owner; the error when
/// there is no text or it does not read like an invoice; otherwise the
/// fields read from the text, by the railway rules for train tickets, with
/// the buyer taken from the file name when the text names none.
pub open spec fn parse_spec(
    path: Seq<char>,
    file_name: Seq<char>,
    owner: Seq<char>,
    output: Result<Seq<char>, Seq<char>>,
) -> InvoiceFields {
    let (text, err) = extracted_text_spec(output);
    let empty = Seq::<char>::empty();
    let debug_text = first_chars(text, 200);
    if err is Some || !looks_like_invoice_spec(text) {
        InvoiceFields {
            file: path,
            file_name,
            invoice_type: empty,
            issue_date: empty,
            invoice_no: empty,
            amount: empty,
            buyer: empty,
            project_name: empty,
            category: empty,
            owner,
            is_invoice_pdf: false,
            error: if err is Some {
                err
            } else {
                Some(not_invoice_message(text))
            },
            debug_text,
        }
    } else {
        let train = is_train_ticket(text);
        let buyer = if train {
            train_buyer_spec(text)
        } else {
            buyer_spec(text)
        };
        InvoiceFields {
            file: path,
            file_name,
            invoice_type: if train {
                "普通发票"@
            } else {
                invoice_type_spec(text)
            },
            issue_date: if train {
                train_date_spec(text)
            } else {
                issue_date_spec(text)
            },
            invoice_no: invoice_no_spec(text),
            amount: if train {
                train_amount_spec(text)
            } else {
                amount_spec(text)
            },
            buyer: if buyer.len() == 0 {
                buyer_from_filename_spec(file_name)
            } else {
                buyer
            },
            project_name: if train {
                "*铁路电子客票*"@
            } else {
                project_name_spec(text)
            },
            category: empty,
            owner,
            is_invoice_pdf: true,
            error: None,
            debug_text,
        }
    }
}

/// What is stated of the file name recorded for `path`: the part after the
/// last `/` when the path names its file plainly, and empty for an empty
/// path.
pub open spec fn file_name_fits(path: Seq<char>, file_name: Seq<char>) -> bool {
    &&& names_file_plainly(path) ==> file_name == last_segment(path)
    &&& path.len() == 0 ==> file_name.len() == 0
}

/// Reads one invoice from the outcome of `pdftotext` on its file, with the
/// file name that `Path::file_name` gives for its path (empty when there is
/// none).
pub fn parse_one(patterns: &InvoicePatterns, input: &PdfExtraction) -> (res: ParsedInvoice)
    ensures
        file_name_fits(input.path@, res@.file_name),
        res@ == parse_spec(input.path@, res@.file_name, input.owner@, output_view(&input.output)),
{
    let file_name = match path_file_name(input.path.as_str()) {
        Some(n) => n,
        None => String::new(),
    };
    parse_with_file_name(patterns, input, file_name)
}

/// Reads one invoice from the outcome of `pdftotext` on its file, recorded
/// under `file_name`.
pub fn parse_with_file_name(
    patterns: &InvoicePatterns,
    input: &PdfExtraction,
    file_name: String,
) -> (res: ParsedInvoice)
    ensures
        res@ == parse_spec(input.path@, file_name@, input.owner@, output_view(&input.output)),
{
    let mut inv = ParsedInvoice {
        file: input.path.clone(),
        file_name,
        invoice_type: String::new(),
        issue_date: String::new(),
        invoice_no: String::new(),
        amount: String::new(),
        buyer: String::new(),
        project_name: String::new(),
        category: String::new(),
        owner: input.owner.clone(),
        is_invoice_pdf: false,
        error: None,
        debug_text: String::new(),
    };
    let (text, err) = extract_text(&input.output);
    inv.debug_text = prefix_chars(text.as_str(), 200);
    if let Some(e) = err {
        inv.error = Some(e);
        return inv;
    }
    if !looks_like_invoice(patterns, text.as_str()) {
        let snippet = non_white_prefix(text.as_str(), 40);
        inv.error = Some(concat3("非发票(特征不足),已跳过 [", snippet.as_str(), "]"));
        return inv;
    }
    inv.is_invoice_pdf = true;
    if contains_str(text.as_str(), "铁路电子客票") || contains_str(text.as_str(), "铁路") {
        inv.invoice_type = "普通发票".to_owned();
        inv.project_name = "*铁路电子客票*".to_owned();
        inv.issue_date = train_extract_date(patterns, text.as_str());
        inv.invoice_no = extract_invoice_no(patterns, text.as_str());
        inv.amount = train_extract_amount(patterns, text.as_str());
        inv.buyer = train_extract_buyer(patterns, text.as_str());
    } else {
        inv.invoice_type = detect_invoice_type(patterns, text.as_str());
        inv.issue_date = extract_issue_date(patterns, text.as_str());
        inv.invoice_no = extract_invoice_no(patterns, text.as_str());
        inv.amount = extract_amount(patterns, text.as_str());
        inv.buyer = extract_buyer(patterns, text.as_str());
        inv.project_name = extract_project_name(patterns, text.as_str());
    }
    if inv.buyer.as_str().is_empty() {
        inv.buyer = extract_buyer_from_filename(inv.file_name.as_str());
    }
    inv
}

/// Reads every invoice, in order.
pub fn import_invoices(patterns: &InvoicePatterns, inputs: Vec<PdfExtraction>) -> (res: Vec<
    ParsedInvoice,
>)
    ensures
        res@.len() == inputs@.len(),
        forall|i: int|
            0 <= i < inputs@.len() ==> {
                &&& file_name_fits(inputs@[i].path@, (#[trigger] res@[i])@.file_name)
                &&& res@[i]@ == parse_spec(
                    inputs@[i].path@,
                    res@[i]@.file_name,
                    inputs@[i].owner@,
                    output_view(&inputs@[i].output),
                )
            },
{
    let mut out: Vec<ParsedInvoice> = Vec::new();
    let n = inputs.len();
    let mut i: usize = 0;
    while i < n
        invariant
            i <= n == inputs@.len(),
            out@.len() == i,
            forall|j: int|
                0 <= j < i ==> {
                    &&& file_name_fits(inputs@[j].path@, (#[trigger] out@[j])@.file_name)
                    &&& out@[j]@ == parse_spec(
                        inputs@[j].path@,
                        out@[j]@.file_name,
                        inputs@[j].owner@,
                        output_view(&inputs@[j].output),
                    )
                },
        decreases n - i,
    {
        out.push(parse_one(patterns, &inputs[i]));
        i += 1;
    }
    out
}


/// Records where `pdftotext` is, unless a place is already recorded.
pub fn set_pdftotext_path(slot: &mut PathSlot, path: String)
    ensures
        final(slot)@ == slot_after_set(old(slot)@, path@),
{
    slot.set(path);
}

/// The text of a tool's standard output: UTF-8 when it is valid UTF-8, else
/// GBK when that decodes without errors, else UTF-8 with replacements.
pub open spec fn decoded_output_spec(bytes: Seq<u8>) -> Seq<char> {
    if valid_utf8(bytes) {
        decode_utf8(bytes)
    } else if !gbk_decode_of(bytes).1 {
        gbk_decode_of(bytes).0
    } else {
        utf8_lossy_of(bytes)
    }
}

/// The text of a tool's standard output.
pub fn decode_tool_output(bytes: &[u8]) -> (res: String)
    requires
        bytes@.len() <= usize::MAX / 4,
    ensures
        res@ == decoded_output_spec(bytes@),
{
    if let Some(s) = utf8_decode(bytes) {
        return s;
    }
    let (s, had_errors) = gbk_decode(bytes);
    if !had_errors {
        return s;
    }
    utf8_lossy(bytes)
}

/// The message for a tool that exited with failure: its name, the words
/// for a failed run, and its trimmed standard error.
pub open spec fn tool_failure_message_spec(tool: Seq<char>, stderr: Seq<u8>) -> Seq<char> {
    tool + " 执行失败: "@ + trim_spec(utf8_lossy_of(stderr))
}

/// The message for a tool that exited with failure.
pub fn tool_failure_message(tool: &str, stderr: &[u8]) -> (res: String)
    ensures
        res@ == tool_failure_message_spec(tool@, stderr@),
{
    let text = utf8_lossy(stderr);
    let t = trim(text.as_str());
    concat3(tool, " 执行失败: ", t.as_str())
}


/// A file is reported as an invoice exactly when no error is reported for
/// it; its path, name and owner are carried over and no category is set.
pub proof fn lemma_parse_invoice_or_error(
    path: Seq<char>,
    file_name: Seq<char>,
    owner: Seq<char>,
    output: Result<Seq<char>, Seq<char>>,
)
    ensures
        parse_spec(path, file_name, owner, output).is_invoice_pdf <==> parse_spec(
            path,
            file_name,
            owner,
            output,
        ).error is None,
        parse_spec(path, file_name, owner, output).file == path,
        parse_spec(path, file_name, owner, output).file_name == file_name,
        parse_spec(path, file_name, owner, output).owner == owner,
        parse_spec(path, file_name, owner, output).category.len() == 0,
        output is Err ==> parse_spec(path, file_name, owner, output).error == Some(output->Err_0),
{
}

/// The diagnostic text is the first 200 characters of the extracted text,
/// or all of it when it is shorter.
pub proof fn lemma_parse_debug_text(
    path: Seq<char>,
    file_name: Seq<char>,
    owner: Seq<char>,
    output: Result<Seq<char>, Seq<char>>,
)
    ensures
        parse_spec(path, file_name, owner, output).debug_text.len() <= 200,
        parse_spec(path, file_name, owner, output).debug_text == extracted_text_spec(output).0.take(
            parse_spec(path, file_name, owner, output).debug_text.len() as int,
        ),
        extracted_text_spec(output).0.len() <= 200 ==> parse_spec(
            path,
            file_name,
            owner,
            output,
        ).debug_text == extracted_text_spec(output).0,
{
    let text = extracted_text_spec(output).0;
    if text.len() <= 200 {
        assert(text.take(text.len() as int) =~= text);
    }
}

/// A railway e-ticket is an ordinary invoice for the item `*铁路电子客票*`.
pub proof fn lemma_parse_train_ticket(
    path: Seq<char>,
    file_name: Seq<char>,
    owner: Seq<char>,
    output: Result<Seq<char>, Seq<char>>,
)
    requires
        parse_spec(path, file_name, owner, output).is_invoice_pdf,
        is_train_ticket(extracted_text_spec(output).0),
    ensures
        parse_spec(path, file_name, owner, output).invoice_type == "普通发票"@,
        parse_spec(path, file_name, owner, output).project_name == "*铁路电子客票*"@,
        parse_spec(path, file_name, owner, output).issue_date == train_date_spec(
            extracted_text_spec(output).0,
        ),
{
}

/// The fields of a file read as an invoice come from their readers: the
/// number from the invoice-number reader; on a railway ticket the amount is
/// the fare reader's, elsewhere the kind, date, amount and item come from
/// the general readers; the buyer is the text's buyer when it names one,
/// else the one in the file name.
pub proof fn lemma_parse_fields_source(
    path: Seq<char>,
    file_name: Seq<char>,
    owner: Seq<char>,
    output: Result<Seq<char>, Seq<char>>,
)
    requires
        parse_spec(path, file_name, owner, output).is_invoice_pdf,
    ensures
        ({
            let text = extracted_text_spec(output).0;
            let inv = parse_spec(path, file_name, owner, output);
            let buyer = if is_train_ticket(text) {
                train_buyer_spec(text)
            } else {
                buyer_spec(text)
            };
            &&& inv.invoice_no == invoice_no_spec(text)
            &&& is_train_ticket(text) ==> inv.amount == train_amount_spec(text)
            &&& !is_train_ticket(text) ==> {
                &&& inv.invoice_type == invoice_type_spec(text)
                &&& inv.issue_date == issue_date_spec(text)
                &&& inv.amount == amount_spec(text)
                &&& inv.project_name == project_name_spec(text)
            }
            &&& buyer.len() > 0 ==> inv.buyer == buyer
            &&& buyer.len() == 0 ==> inv.buyer == buyer_from_filename_spec(file_name)
        }),
{
}

/// An amount read by the general rules holds no thousands separator.
pub proof fn lemma_amount_without_commas(text: Seq<char>)
    ensures
        !amount_spec(text).contains(','),
{
    broadcast use vstd::seq_lib::group_filter_ensures;

    let a = amount_spec(text);
    if a.contains(',') {
        let i = choose|i: int| 0 <= i < a.len() && a[i] == ',';
        assert(a[i] == ',');
    }
}

/// The amount comes from the first `（小写）` total whenever the text has one,
/// whatever yen amounts stand before it; only a text without one gives its
/// first yen amount; commas are dropped either way, and a text with
/// neither gives no amount.
pub proof fn lemma_amount_source(text: Seq<char>)
    ensures
        first_match(AMOUNT_PATTERN, text) matches Some(c) ==> amount_spec(text) == group_of(
            c,
            1,
        ).filter(|x: char| x != ','),
        first_match(AMOUNT_PATTERN, text) is None ==> (first_match(YEN_AMOUNT_PATTERN, text) matches Some(c)
            ==> amount_spec(text) == group_of(c, 1).filter(|x: char| x != ',')),
        first_match(AMOUNT_PATTERN, text) is None && first_match(YEN_AMOUNT_PATTERN, text) is None
            ==> amount_spec(text).len() == 0,
{
    match first_match(AMOUNT_PATTERN, text) {
        Some(c) => {
            assert(strip_commas(group_of(c, 1)) =~= group_of(c, 1).filter(|x: char| x != ','));
        },
        None => match first_match(YEN_AMOUNT_PATTERN, text) {
            Some(c) => {
                assert(strip_commas(group_of(c, 1)) =~= group_of(c, 1).filter(|x: char| x != ','));
            },
            None => {},
        },
    }
}

/// The invoice number is group 1 of the first `发票号码` match whenever there
/// is one, whatever its length; only a text without one gives its first run
/// of 20 to 25 digits; a text with neither gives no number.
pub proof fn lemma_invoice_no_source(text: Seq<char>)
    ensures
        first_match(INVOICE_NO_PATTERN, text) matches Some(c) ==> invoice_no_spec(text) == group_of(
            c,
            1,
        ),
        first_match(INVOICE_NO_PATTERN, text) is None ==> (first_match(LONG_NUMBER_PATTERN, text) matches Some(c)
            ==> invoice_no_spec(text) == group_of(c, 1)),
        first_match(INVOICE_NO_PATTERN, text) is None && first_match(LONG_NUMBER_PATTERN, text) is None
            ==> invoice_no_spec(text).len() == 0,
{
}

/// A buyer read after `买 名称：` up to two spaces is taken exactly when,
/// trimmed, it neither starts with `售` nor holds the seller's label
/// `售 名称`; otherwise the text is read as if that label had not matched.
/// So a buyer taken from it never holds the seller's label.
pub proof fn lemma_split_buyer_rejects_seller_label(
    g: Seq<char>,
    loose: Option<Seq<char>>,
    bare: Option<Seq<char>>,
)
    ensures
        (starts_with_spec(trim_spec(g), "售"@) || contains_spec(trim_spec(g), "售 名称"@))
            ==> buyer_from_groups_spec(None, None, Some(g), loose, bare) == buyer_from_groups_spec(
            None,
            None,
            None,
            loose,
            bare,
        ),
        !starts_with_spec(trim_spec(g), "售"@) && !contains_spec(trim_spec(g), "售 名称"@)
            ==> buyer_from_groups_spec(None, None, Some(g), loose, bare) == trim_spec(g),
{
}

/// The buyer labels are tried in order: a `购 名称` match decides the buyer
/// (trimmed), else a `购买方名称` line (cut before the credit code), whatever
/// the other labels would give.
pub proof fn lemma_buyer_label_order(
    name: Option<Seq<char>>,
    full: Option<Seq<char>>,
    split: Option<Seq<char>>,
    loose: Option<Seq<char>>,
    bare: Option<Seq<char>>,
)
    ensures
        name matches Some(g) ==> buyer_from_groups_spec(name, full, split, loose, bare) == trim_spec(
            g,
        ),
        name is None ==> (full matches Some(g) ==> buyer_from_groups_spec(
            name,
            full,
            split,
            loose,
            bare,
        ) == cut_at_credit_code_spec(trim_spec(g))),
{
}

/// A railway ticket's amount is its fare whenever the text has one, else
/// the amount read as for other invoices.
pub proof fn lemma_train_amount_source(text: Seq<char>)
    ensures
        first_match(TRAIN_FARE_PATTERN, text) matches Some(c) ==> train_amount_spec(text)
            == group_of(c, 1),
        first_match(TRAIN_FARE_PATTERN, text) is None ==> train_amount_spec(text) == amount_spec(
            text,
        ),
{
}

/// The issue date comes from the first written date when that date is
/// valid; only otherwise from the eight-digit dates.
pub proof fn lemma_issue_date_source(text: Seq<char>)
    ensures
        first_match(DATE_PATTERN, text) matches Some(c) ==> (date_from_written_groups(c) matches Some(
            d,
        ) ==> issue_date_spec(text) == d),
{
}

/// A buyer taken from a file name holds a CJK ideograph and no `_`.
pub proof fn lemma_filename_buyer_shape(file_name: Seq<char>)
    ensures
        buyer_from_filename_spec(file_name).len() > 0 ==> {
            &&& exists|i: int|
                0 <= i < buyer_from_filename_spec(file_name).len() && is_cjk_ideograph(
                    #[trigger] buyer_from_filename_spec(file_name)[i],
                )
            &&& !buyer_from_filename_spec(file_name).contains('_')
        },
{
    let stem = filename_stem(file_name);
    let u = seq!['_'];
    let last = stem.len() - u.len();
    lemma_rfind_from_last(stem, u, last);
    match rfind_spec(stem, u) {
        Some(p) => {
            let tail = stem.subrange(p + 1, stem.len() as int);
            if buyer_from_filename_spec(file_name).len() > 0 {
                assert(buyer_from_filename_spec(file_name) == tail);
                assert forall|k: int| 0 <= k < tail.len() implies tail[k] != '_' by {
                    let q = p + 1 + k;
                    assert(tail[k] == stem[q]);
                    if stem[q] == '_' {
                        assert(stem.subrange(q, q + 1) =~= u);
                        assert(occurs_at(stem, u, q));
                    }
                }
            }
        },
        None => {},
    }
}

/// A date read from a written date carries a month in 1..=12 and a day in
/// 1..=31, each printed in two digits that read back as the same number.
pub proof fn lemma_written_date_shape(caps: Groups)
    ensures
        date_from_written_groups(caps) matches Some(d) ==> {
            let month = number_or_zero(group_of(caps, 2));
            let day = number_or_zero(group_of(caps, 3));
            &&& 1 <= month <= 12
            &&& 1 <= day <= 31
            &&& d == date_text(group_of(caps, 1), month, day)
            &&& parse_u32_spec(zero_padded(month as nat, 2)) == Some(month)
            &&& parse_u32_spec(zero_padded(day as nat, 2)) == Some(day)
        },
{
    let month = number_or_zero(group_of(caps, 2));
    let day = number_or_zero(group_of(caps, 3));
    lemma_zero_padded_parses_back(month, 2);
    lemma_zero_padded_parses_back(day, 2);
}

} // verus!

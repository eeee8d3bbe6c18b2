//! Planning how invoice PDFs are paired onto A4 pages.
use vstd::prelude::*;

use crate::numbers::decimal_spec;
use crate::numbers::decimal_string;
use crate::numbers::zero_padded;
use crate::numbers::zero_padded_string;
use crate::slot::slot_after_set;
use crate::slot::PathSlot;
use crate::text::concat2;
use crate::text::concat3;

verus! {

/// Records where `pdftocairo` is, unless a place is already recorded.
pub fn set_pdftocairo_path(slot: &mut PathSlot, path: String)
    ensures
        final(slot)@ == slot_after_set(old(slot)@, path@),
{
    slot.set(path);
}

/// The outcome of merging: the files written, how many, and where.
pub struct MergeResult {
    pub total: usize,
    pub output_dir: String,
    pub files: Vec<String>,
}

impl MergeResult {
    /// The result that reports `files` written into `output_dir`.
    pub fn new(output_dir: String, files: Vec<String>) -> (res: MergeResult)
        ensures
            res.total == files@.len(),
            res.output_dir@ == output_dir@,
            res.files.deep_view() == files.deep_view(),
    {
        MergeResult { total: files.len(), output_dir, files }
    }
}

/// One output page: the one or two input files on it, the name of the file
/// to write, and the temporary name a single file is copied to first.
pub struct MergeStep {
    pub inputs: Vec<String>,
    pub output_name: String,
    pub temp_name: String,
}

impl View for MergeStep {
    type V = (Seq<Seq<char>>, Seq<char>, Seq<char>);

    open spec fn view(&self) -> (Seq<Seq<char>>, Seq<char>, Seq<char>) {
        (self.inputs.deep_view(), self.output_name@, self.temp_name@)
    }
}

/// The name of the `j`-th output (counting from zero): the prefix, `_`, the
/// number `j + 1` in three or more digits, and `.pdf`.
pub open spec fn merge_output_name(prefix: Seq<char>, j: nat) -> Seq<char> {
    prefix + "_"@ + zero_padded(j + 1, 3) + ".pdf"@
}

/// The temporary name for the `j`-th output.
pub open spec fn merge_temp_name(j: nat) -> Seq<char> {
    ".tmp_"@ + decimal_spec(j) + ".pdf"@
}

/// The steps for `files`: consecutive pairs, the last one alone when the
/// number of files is odd.
pub open spec fn merge_plan_spec(files: Seq<Seq<char>>, prefix: Seq<char>) -> Seq<
    (Seq<Seq<char>>, Seq<char>, Seq<char>),
> {
    Seq::new(
        ((files.len() + 1) / 2) as nat,
        |j: int|
            (
                files.subrange(
                    2 * j,
                    if 2 * j + 2 <= files.len() {
                        2 * j + 2
                    } else {
                        files.len() as int
                    },
                ),
                merge_output_name(prefix, j as nat),
                merge_temp_name(j as nat),
            ),
    )
}

/// The message when there is nothing to merge.
pub open spec fn nothing_to_merge_message() -> Seq<char> {
    "没有需要合并的PDF"@
}

/// The steps that merge `files` two to a page; an error when there are none.
pub fn plan_merge(files: &Vec<String>, file_prefix: &str) -> (res: Result<Vec<MergeStep>, String>)
    ensures
        files@.len() == 0 <==> res is Err,
        res matches Err(e) ==> e@ == nothing_to_merge_message(),
        res matches Ok(steps) ==> steps@.map_values(|s: MergeStep| s@) == merge_plan_spec(
            files.deep_view(),
            file_prefix@,
        ),
{
    let n = files.len();
    if n == 0 {
        return Err("没有需要合并的PDF".to_owned());
    }
    let ghost spec = merge_plan_spec(files.deep_view(), file_prefix@);
    let count = n / 2 + n % 2;
    assert(count == (n + 1) / 2);
    let mut steps: Vec<MergeStep> = Vec::new();
    let mut j: usize = 0;
    while j < count
        invariant
            n == files@.len(),
            count == (n + 1) / 2,
            j <= count,
            steps@.len() == j,
            spec == merge_plan_spec(files.deep_view(), file_prefix@),
            forall|t: int| 0 <= t < steps@.len() ==> (#[trigger] steps@[t])@ == spec[t],
        decreases count - j,
    {
        let idx = 2 * j;
        let end = if n - idx >= 2 {
            idx + 2
        } else {
            n
        };
        let mut inputs: Vec<String> = Vec::new();
        let mut k = idx;
        while k < end
            invariant
                idx <= k <= end <= n == files@.len(),
                inputs@.len() == k - idx,
                forall|t: int| 0 <= t < inputs@.len() ==> (#[trigger] inputs@[t])@ == files@[idx + t]@,
            decreases end - k,
        {
            inputs.push(files[k].clone());
            k += 1;
        }
        assert(inputs.deep_view() =~= files.deep_view().subrange(idx as int, end as int));
        let number = zero_padded_string((j + 1) as u64, 3);
        let head = concat3(file_prefix, "_", number.as_str());
        let output_name = concat2(head.as_str(), ".pdf");
        let ordinal = decimal_string(j as u64);
        let temp_name = concat3(".tmp_", ordinal.as_str(), ".pdf");
        steps.push(MergeStep { inputs, output_name, temp_name });
        assert(steps@[j as int]@ == spec[j as int]);
        j += 1;
    }
    assert(steps@.map_values(|s: MergeStep| s@) =~= spec);
    Ok(steps)
}

/// Each file lands on exactly one output page: file `i` is entry `i % 2` of
/// step `i / 2`, and every step holds one or two files.
pub proof fn lemma_merge_plan_places_each_file(files: Seq<Seq<char>>, prefix: Seq<char>)
    ensures
        forall|i: int|
            0 <= i < files.len() ==> {
                let step = #[trigger] merge_plan_spec(files, prefix)[i / 2];
                i % 2 < step.0.len() && step.0[i % 2] == files[i]
            },
        forall|j: int|
            0 <= j < merge_plan_spec(files, prefix).len() ==> 1 <= (
            #[trigger] merge_plan_spec(files, prefix)[j]).0.len() <= 2,
        forall|j: int, k: int|
            0 <= j < merge_plan_spec(files, prefix).len() && 0 <= k < merge_plan_spec(
                files,
                prefix,
            )[j].0.len() ==> 2 * j + k < files.len() && #[trigger] merge_plan_spec(
                files,
                prefix,
            )[j].0[k] == files[2 * j + k],
{
}


/// What looking up one content stream of a page gave.
pub enum ContentObject {
    /// A stream holding `length` bytes.
    Stream { length: usize },
    /// An object that is not a stream.
    NotStream,
    /// The lookup failed with this message.
    Failed { message: String },
}

/// One content stream of a page: its object id and what it is.
pub struct ContentStreamInfo {
    pub object_number: u32,
    pub generation: u16,
    pub object: ContentObject,
}

/// One page of a PDF as the diagnosis reads it: its page number, its object
/// id, its content streams, and the length of its decoded content or the
/// message of the failure to decode it.
pub struct PageInfo {
    pub page_number: u32,
    pub object_number: u32,
    pub generation: u16,
    pub contents: Vec<ContentStreamInfo>,
    pub decoded: Result<usize, String>,
}

/// A number in base ten.
pub open spec fn dec(n: nat) -> Seq<char> {
    decimal_spec(n)
}

/// An object id as `{:?}` prints the pair: `(number, generation)`.
pub open spec fn object_id_text(number: u32, generation: u16) -> Seq<char> {
    "("@ + dec(number as nat) + ", "@ + dec(generation as nat) + ")"@
}

/// The ids of the streams, separated by `, `.
pub open spec fn joined_ids(cs: Seq<ContentStreamInfo>) -> Seq<char>
    decreases cs.len(),
{
    if cs.len() == 0 {
        Seq::empty()
    } else if cs.len() == 1 {
        object_id_text(cs[0].object_number, cs[0].generation)
    } else {
        joined_ids(cs.drop_last()) + ", "@ + object_id_text(cs.last().object_number, cs.last().generation)
    }
}

/// The line for one content stream.
pub open spec fn stream_line(c: ContentStreamInfo) -> Seq<char> {
    match c.object {
        ContentObject::Stream { length } => "  流"@ + dec(c.object_number as nat) + "长度: "@ + dec(
            length as nat,
        ) + "\n"@,
        ContentObject::NotStream => "  对象"@ + dec(c.object_number as nat) + "不是流\n"@,
        ContentObject::Failed { message } => "  获取对象"@ + dec(c.object_number as nat) + "失败: "@
            + message@ + "\n"@,
    }
}

/// The lines for the streams, in order.
pub open spec fn stream_lines(cs: Seq<ContentStreamInfo>) -> Seq<char>
    decreases cs.len(),
{
    if cs.len() == 0 {
        Seq::empty()
    } else {
        stream_lines(cs.drop_last()) + stream_line(cs.last())
    }
}

/// The heading of the page at `index` (counting from zero).
pub open spec fn page_heading(index: nat, p: PageInfo) -> Seq<char> {
    "\n=== 页面 "@ + dec(index + 1) + " (页码: "@ + dec(p.page_number as nat) + ", ID: "@
        + object_id_text(p.object_number, p.generation) + ") ===\n"@
}

/// The lines about the content streams of a page.
pub open spec fn page_streams(p: PageInfo) -> Seq<char> {
    if p.contents@.len() > 0 {
        "内容流ID: "@ + "["@ + joined_ids(p.contents@) + "]"@ + "\n"@ + stream_lines(p.contents@)
    } else {
        "无内容流\n"@
    }
}

/// The line about the decoded content of a page.
pub open spec fn page_decoded(p: PageInfo) -> Seq<char> {
    match p.decoded {
        Ok(n) => "解码后内容长度: "@ + dec(n as nat) + "\n"@,
        Err(e) => "解码内容失败: "@ + e@ + "\n"@,
    }
}

/// The section for the page at `index` (counting from zero).
pub open spec fn page_section(index: nat, p: PageInfo) -> Seq<char> {
    page_heading(index, p) + page_streams(p) + page_decoded(p)
}

/// The sections for the pages, in order.
pub open spec fn page_sections(pages: Seq<PageInfo>) -> Seq<char>
    decreases pages.len(),
{
    if pages.len() == 0 {
        Seq::empty()
    } else {
        page_sections(pages.drop_last()) + page_section((pages.len() - 1) as nat, pages.last())
    }
}

/// The diagnosis of a PDF: its path and page count, then one section per
/// page.
pub open spec fn debug_report_spec(path: Seq<char>, pages: Seq<PageInfo>) -> Seq<char> {
    "PDF: "@ + path + ", 页面数: "@ + dec(pages.len()) + "\n"@ + page_sections(pages)
}

fn push_number(out: &mut String, n: u64)
    ensures
        final(out)@ == old(out)@ + dec(n as nat),
{
    let s = decimal_string(n);
    out.append(s.as_str());
}

fn push_object_id(out: &mut String, number: u32, generation: u16)
    ensures
        final(out)@ == old(out)@ + object_id_text(number, generation),
{
    let ghost start = out@;
    out.append("(");
    push_number(out, number as u64);
    out.append(", ");
    push_number(out, generation as u64);
    out.append(")");
    assert(out@ =~= start + object_id_text(number, generation));
}

fn push_stream_ids(out: &mut String, cs: &Vec<ContentStreamInfo>)
    ensures
        final(out)@ == old(out)@ + joined_ids(cs@),
{
    let ghost start = out@;
    let n = cs.len();
    let mut i: usize = 0;
    while i < n
        invariant
            i <= n == cs@.len(),
            out@ == start + joined_ids(cs@.take(i as int)),
        decreases n - i,
    {
        assert(cs@.take(i + 1).drop_last() =~= cs@.take(i as int));
        if i > 0 {
            out.append(", ");
        }
        push_object_id(out, cs[i].object_number, cs[i].generation);
        i += 1;
        assert(out@ =~= start + joined_ids(cs@.take(i as int)));
    }
    assert(cs@.take(n as int) =~= cs@);
}

fn push_stream_line(out: &mut String, c: &ContentStreamInfo)
    ensures
        final(out)@ == old(out)@ + stream_line(*c),
{
    let ghost start = out@;
    match &c.object {
        ContentObject::Stream { length } => {
            out.append("  流");
            push_number(out, c.object_number as u64);
            out.append("长度: ");
            push_number(out, *length as u64);
            out.append("\n");
        },
        ContentObject::NotStream => {
            out.append("  对象");
            push_number(out, c.object_number as u64);
            out.append("不是流\n");
        },
        ContentObject::Failed { message } => {
            out.append("  获取对象");
            push_number(out, c.object_number as u64);
            out.append("失败: ");
            out.append(message.as_str());
            out.append("\n");
        },
    }
    assert(out@ =~= start + stream_line(*c));
}

fn push_stream_lines(out: &mut String, cs: &Vec<ContentStreamInfo>)
    ensures
        final(out)@ == old(out)@ + stream_lines(cs@),
{
    let ghost start = out@;
    let n = cs.len();
    let mut j: usize = 0;
    while j < n
        invariant
            j <= n == cs@.len(),
            out@ == start + stream_lines(cs@.take(j as int)),
        decreases n - j,
    {
        assert(cs@.take(j + 1).drop_last() =~= cs@.take(j as int));
        push_stream_line(out, &cs[j]);
        j += 1;
        assert(out@ =~= start + stream_lines(cs@.take(j as int)));
    }
    assert(cs@.take(n as int) =~= cs@);
}

fn push_page_heading(out: &mut String, index: usize, p: &PageInfo)
    requires
        index < usize::MAX,
    ensures
        final(out)@ == old(out)@ + page_heading(index as nat, *p),
{
    let ghost start = out@;
    out.append("\n=== 页面 ");
    push_number(out, (index + 1) as u64);
    out.append(" (页码: ");
    push_number(out, p.page_number as u64);
    out.append(", ID: ");
    push_object_id(out, p.object_number, p.generation);
    out.append(") ===\n");
    assert(out@ =~= start + page_heading(index as nat, *p));
}

fn push_page_streams(out: &mut String, p: &PageInfo)
    ensures
        final(out)@ == old(out)@ + page_streams(*p),
{
    let ghost start = out@;
    if p.contents.len() > 0 {
        out.append("内容流ID: ");
        out.append("[");
        push_stream_ids(out, &p.contents);
        out.append("]");
        out.append("\n");
        push_stream_lines(out, &p.contents);
    } else {
        out.append("无内容流\n");
    }
    assert(out@ =~= start + page_streams(*p));
}

fn push_page_decoded(out: &mut String, p: &PageInfo)
    ensures
        final(out)@ == old(out)@ + page_decoded(*p),
{
    let ghost start = out@;
    match &p.decoded {
        Ok(len) => {
            out.append("解码后内容长度: ");
            push_number(out, *len as u64);
            out.append("\n");
        },
        Err(e) => {
            out.append("解码内容失败: ");
            out.append(e.as_str());
            out.append("\n");
        },
    }
    assert(out@ =~= start + page_decoded(*p));
}

fn push_page_section(out: &mut String, index: usize, p: &PageInfo)
    requires
        index < usize::MAX,
    ensures
        final(out)@ == old(out)@ + page_section(index as nat, *p),
{
    let ghost start = out@;
    push_page_heading(out, index, p);
    push_page_streams(out, p);
    push_page_decoded(out, p);
    assert(out@ =~= start + page_section(index as nat, *p));
}

/// The diagnosis of a PDF from the pages read from it.
pub fn debug_report(path: &str, pages: &Vec<PageInfo>) -> (res: String)
    ensures
        res@ == debug_report_spec(path@, pages@),
{
    let mut out = "PDF: ".to_owned();
    out.append(path);
    out.append(", 页面数: ");
    push_number(&mut out, pages.len() as u64);
    out.append("\n");
    let ghost head = out@;
    let n = pages.len();
    let mut i: usize = 0;
    while i < n
        invariant
            i <= n == pages@.len(),
            out@ == head + page_sections(pages@.take(i as int)),
        decreases n - i,
    {
        assert(pages@.take(i + 1).drop_last() =~= pages@.take(i as int));
        push_page_section(&mut out, i, &pages[i]);
        i += 1;
        assert(out@ =~= head + page_sections(pages@.take(i as int)));
    }
    assert(pages@.take(n as int) =~= pages@);
    out
}

} // verus!

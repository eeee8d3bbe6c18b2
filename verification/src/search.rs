//! Where the helper scripts and the poppler tools are looked for, in order.
use vstd::prelude::*;

use crate::text::concat2;

verus! {

/// The directory a relative candidate path starts from.
#[derive(PartialEq, Eq, Structural, Clone, Copy, Debug)]
pub enum SearchRoot {
    /// The current working directory.
    WorkingDir,
    /// The directory of the running executable, or one of its ancestors:
    /// the number says how many levels up.
    ExeDir(usize),
}

/// A place to look for a file: a root and the path components below it.
pub struct PathCandidate {
    pub root: SearchRoot,
    pub parts: Vec<String>,
}

impl View for PathCandidate {
    type V = (SearchRoot, Seq<Seq<char>>);

    open spec fn view(&self) -> (SearchRoot, Seq<Seq<char>>) {
        (self.root, self.parts.deep_view())
    }
}

fn one_part(a: String) -> (res: Vec<String>)
    ensures
        res.deep_view() == seq![a@],
{
    let mut v: Vec<String> = Vec::new();
    v.push(a);
    assert(v.deep_view() =~= seq![a@]);
    v
}

fn two_parts(a: String, b: String) -> (res: Vec<String>)
    ensures
        res.deep_view() == seq![a@, b@],
{
    let mut v: Vec<String> = Vec::new();
    v.push(a);
    v.push(b);
    assert(v.deep_view() =~= seq![a@, b@]);
    v
}

/// The candidates by their views.
pub open spec fn candidate_views(c: Seq<PathCandidate>) -> Seq<(SearchRoot, Seq<Seq<char>>)> {
    c.map_values(|p: PathCandidate| p@)
}

/// The places a helper script is looked for: the working directory, then
/// the executable's directory and up to three of its ancestors, each
/// directly and in its `output_py_tools` folder.
pub open spec fn script_candidates_spec(script: Seq<char>) -> Seq<(SearchRoot, Seq<Seq<char>>)> {
    seq![(SearchRoot::WorkingDir, seq![script])] + Seq::new(
        8,
        |i: int|
            (
                SearchRoot::ExeDir((i / 2) as usize),
                if i % 2 == 0 {
                    seq![script]
                } else {
                    seq!["output_py_tools"@, script]
                },
            ),
    )
}

/// The places a helper script is looked for, in order.
pub fn script_candidates(script: &str) -> (res: Vec<PathCandidate>)
    ensures
        candidate_views(res@) == script_candidates_spec(script@),
{
    let mut out: Vec<PathCandidate> = Vec::new();
    out.push(PathCandidate { root: SearchRoot::WorkingDir, parts: one_part(script.to_owned()) });
    let mut up: usize = 0;
    while up < 4
        invariant
            up <= 4,
            out@.len() == 1 + 2 * up,
            candidate_views(out@) == script_candidates_spec(script@).take(1 + 2 * up),
        decreases 4 - up,
    {
        out.push(PathCandidate { root: SearchRoot::ExeDir(up), parts: one_part(script.to_owned()) });
        out.push(
            PathCandidate {
                root: SearchRoot::ExeDir(up),
                parts: two_parts("output_py_tools".to_owned(), script.to_owned()),
            },
        );
        up += 1;
        assert(candidate_views(out@) =~= script_candidates_spec(script@).take(1 + 2 * up));
    }
    assert(script_candidates_spec(script@).take(9) =~= script_candidates_spec(script@));
    out
}

/// The places a poppler tool is looked for beside the executable: the
/// executable's directory and its ancestors up to `levels - 1` levels up,
/// each under `poppler/Library/bin` and `resources/poppler/Library/bin`.
pub open spec fn poppler_candidates_spec(tool: Seq<char>, levels: nat) -> Seq<
    (SearchRoot, Seq<Seq<char>>),
> {
    Seq::new(
        2 * levels,
        |i: int|
            (
                SearchRoot::ExeDir((i / 2) as usize),
                if i % 2 == 0 {
                    seq!["poppler/Library/bin/"@ + tool]
                } else {
                    seq!["resources/poppler/Library/bin/"@ + tool]
                },
            ),
    )
}

/// The places a poppler tool is looked for beside the executable, in order.
pub fn poppler_candidates(tool: &str, levels: usize) -> (res: Vec<PathCandidate>)
    ensures
        candidate_views(res@) == poppler_candidates_spec(tool@, levels as nat),
{
    let mut out: Vec<PathCandidate> = Vec::new();
    let mut up: usize = 0;
    while up < levels
        invariant
            up <= levels,
            out@.len() == 2 * up,
            candidate_views(out@) == poppler_candidates_spec(tool@, levels as nat).take(2 * up),
        decreases levels - up,
    {
        out.push(
            PathCandidate {
                root: SearchRoot::ExeDir(up),
                parts: one_part(concat2("poppler/Library/bin/", tool)),
            },
        );
        out.push(
            PathCandidate {
                root: SearchRoot::ExeDir(up),
                parts: one_part(concat2("resources/poppler/Library/bin/", tool)),
            },
        );
        up += 1;
        assert(candidate_views(out@) =~= poppler_candidates_spec(tool@, levels as nat).take(
            2 * up,
        ));
    }
    assert(poppler_candidates_spec(tool@, levels as nat).take(2 * levels) =~= poppler_candidates_spec(
        tool@,
        levels as nat,
    ));
    out
}

/// The places a poppler tool is looked for in a development checkout.
pub open spec fn poppler_dev_candidates_spec(tool: Seq<char>) -> Seq<(SearchRoot, Seq<Seq<char>>)> {
    seq![
        (SearchRoot::WorkingDir, seq!["src-tauri/poppler/Library/bin/"@ + tool]),
        (SearchRoot::WorkingDir, seq!["static/poppler/Library/bin/"@ + tool]),
    ]
}

/// The places a poppler tool is looked for in a development checkout.
pub fn poppler_dev_candidates(tool: &str) -> (res: Vec<PathCandidate>)
    ensures
        candidate_views(res@) == poppler_dev_candidates_spec(tool@),
{
    let mut out: Vec<PathCandidate> = Vec::new();
    out.push(
        PathCandidate {
            root: SearchRoot::WorkingDir,
            parts: one_part(concat2("src-tauri/poppler/Library/bin/", tool)),
        },
    );
    out.push(
        PathCandidate {
            root: SearchRoot::WorkingDir,
            parts: one_part(concat2("static/poppler/Library/bin/", tool)),
        },
    );
    assert(candidate_views(out@) =~= poppler_dev_candidates_spec(tool@));
    out
}

/// A source that a poppler tool is taken from.
#[derive(PartialEq, Eq, Structural, Clone, Copy, Debug)]
pub enum ToolSource {
    /// The place recorded before the search, when it exists.
    Recorded,
    /// The path named by the environment variable `INVOICE_PDFTOTEXT`.
    Environment,
    /// The first of [`poppler_candidates`] that exists.
    BesideExecutable,
    /// The first of [`poppler_dev_candidates`] that exists.
    DevelopmentCheckout,
    /// The program on the `PATH`.
    SearchPath,
}

/// The order in which `pdftotext` is looked for: the recorded place, the
/// environment, beside the executable, a development checkout, the `PATH`.
pub open spec fn pdftotext_sources_spec() -> Seq<ToolSource> {
    seq![
        ToolSource::Recorded,
        ToolSource::Environment,
        ToolSource::BesideExecutable,
        ToolSource::DevelopmentCheckout,
        ToolSource::SearchPath,
    ]
}

/// The order in which `pdftotext` is looked for; the first source that
/// yields an existing file wins.
pub fn pdftotext_sources() -> (res: Vec<ToolSource>)
    ensures
        res@ == pdftotext_sources_spec(),
{
    let res = vec![
        ToolSource::Recorded,
        ToolSource::Environment,
        ToolSource::BesideExecutable,
        ToolSource::DevelopmentCheckout,
        ToolSource::SearchPath,
    ];
    assert(res@ =~= pdftotext_sources_spec());
    res
}

/// The order in which `pdftocairo` is looked for: as for `pdftotext`, but
/// without the environment.
pub open spec fn pdftocairo_sources_spec() -> Seq<ToolSource> {
    seq![
        ToolSource::Recorded,
        ToolSource::BesideExecutable,
        ToolSource::DevelopmentCheckout,
        ToolSource::SearchPath,
    ]
}

/// The order in which `pdftocairo` is looked for; the first source that
/// yields an existing file wins.
pub fn pdftocairo_sources() -> (res: Vec<ToolSource>)
    ensures
        res@ == pdftocairo_sources_spec(),
{
    let res = vec![
        ToolSource::Recorded,
        ToolSource::BesideExecutable,
        ToolSource::DevelopmentCheckout,
        ToolSource::SearchPath,
    ];
    assert(res@ =~= pdftocairo_sources_spec());
    res
}

} // verus!

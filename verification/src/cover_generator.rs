//! Grouping invoices for reimbursement covers, and the names of the files
//! that the cover and ledger scripts write.
use vstd::prelude::*;

use crate::bindings::utf8_lossy;
use crate::bindings::utf8_lossy_of;
use crate::invoice_parser::InvoiceFields;
use crate::invoice_parser::ParsedInvoice;
use crate::text::concat2;
use crate::text::concat3;

verus! {

/// The key that puts invoices on one cover: the pair of owner and buyer.
pub open spec fn cover_key(inv: InvoiceFields) -> (Seq<char>, Seq<char>) {
    (inv.owner, inv.buyer)
}

/// The invoices by their views.
pub open spec fn invoice_views(invoices: Seq<ParsedInvoice>) -> Seq<InvoiceFields> {
    invoices.map_values(|inv: ParsedInvoice| inv@)
}

/// `groups` holds the indices of the invoices (files that read as invoices),
/// one group per owner and buyer: each group is not empty, lists the invoices of
/// its key in file order, no two groups share a key, every invoice is in a
/// group, and the groups come in the order in which their keys first occur.
pub open spec fn is_cover_grouping(invs: Seq<InvoiceFields>, groups: Seq<Seq<usize>>) -> bool {
    &&& forall|g: int| 0 <= g < groups.len() ==> #[trigger] groups[g].len() > 0
    &&& forall|g: int, k: int|
        0 <= g < groups.len() && 0 <= k < groups[g].len() ==> {
            &&& #[trigger] groups[g][k] < invs.len()
            &&& invs[groups[g][k] as int].is_invoice_pdf
            &&& cover_key(invs[groups[g][k] as int]) == cover_key(invs[groups[g][0] as int])
        }
    &&& forall|g: int, k1: int, k2: int|
        0 <= g < groups.len() && 0 <= k1 < k2 < groups[g].len() ==> #[trigger] groups[g][k1]
            < #[trigger] groups[g][k2]
    &&& forall|g1: int, g2: int|
        0 <= g1 < g2 < groups.len() ==> #[trigger] groups[g1][0] < #[trigger] groups[g2][0]
    &&& forall|g1: int, g2: int|
        0 <= g1 < groups.len() && 0 <= g2 < groups.len() && g1 != g2 ==> cover_key(
            invs[#[trigger] groups[g1][0] as int],
        ) != cover_key(invs[#[trigger] groups[g2][0] as int])
    &&& forall|t: int|
        0 <= t < invs.len() && #[trigger] invs[t].is_invoice_pdf ==> exists|g: int, k: int|
            0 <= g < groups.len() && 0 <= k < groups[g].len() && #[trigger] groups[g][k] == t
}

fn cover_key_exec(inv: &ParsedInvoice) -> (res: (String, String))
    ensures
        res@ == cover_key(inv@),
{
    (inv.owner.clone(), inv.buyer.clone())
}

/// Whether two keys hold the same owner and the same buyer.
fn same_key(a: &(String, String), b: &(String, String)) -> (res: bool)
    ensures
        res == (a@ == b@),
{
    a.0 == b.0 && a.1 == b.1
}

fn position_of(keys: &Vec<(String, String)>, key: &(String, String)) -> (res: Option<usize>)
    ensures
        match res {
            Some(j) => j < keys@.len() && keys@[j as int]@ == key@,
            None => forall|j: int| 0 <= j < keys@.len() ==> (#[trigger] keys@[j])@ != key@,
        },
{
    let n = keys.len();
    let mut j: usize = 0;
    while j < n
        invariant
            j <= n == keys@.len(),
            forall|i: int| 0 <= i < j ==> (#[trigger] keys@[i])@ != key@,
        decreases n - j,
    {
        if same_key(&keys[j], key) {
            return Some(j);
        }
        j += 1;
    }
    None
}

/// The indices, in file order, of the invoices whose cover key is `key`.
fn members_with_key(invoices: &Vec<ParsedInvoice>, key: &(String, String)) -> (res: Vec<usize>)
    ensures
        forall|k: int|
            0 <= k < res@.len() ==> {
                &&& #[trigger] res@[k] < invoices@.len()
                &&& invoices@[res@[k] as int].is_invoice_pdf
                &&& cover_key(invoices@[res@[k] as int]@) == key@
            },
        forall|k1: int, k2: int| 0 <= k1 < k2 < res@.len() ==> #[trigger] res@[k1] < #[trigger] res@[k2],
        forall|s: int|
            0 <= s < invoices@.len() && invoices@[s].is_invoice_pdf && cover_key(invoices@[s]@)
                == key@ ==> #[trigger] res@.contains(s as usize),
        forall|s: int|
            0 <= s < invoices@.len() && invoices@[s].is_invoice_pdf && cover_key(invoices@[s]@)
                == key@ && (forall|r: int|
                0 <= r < s && invoices@[r].is_invoice_pdf ==> cover_key(invoices@[r]@) != key@)
                ==> res@.len() > 0 && res@[0] == s,
{
    let n = invoices.len();
    let mut members: Vec<usize> = Vec::new();
    let mut t: usize = 0;
    while t < n
        invariant
            t <= n == invoices@.len(),
            forall|k: int|
                0 <= k < members@.len() ==> {
                    &&& #[trigger] members@[k] < t
                    &&& invoices@[members@[k] as int].is_invoice_pdf
                    &&& cover_key(invoices@[members@[k] as int]@) == key@
                },
            forall|k1: int, k2: int|
                0 <= k1 < k2 < members@.len() ==> #[trigger] members@[k1] < #[trigger] members@[k2],
            forall|s: int|
                0 <= s < t && invoices@[s].is_invoice_pdf && cover_key(invoices@[s]@) == key@
                    ==> #[trigger] members@.contains(s as usize),
        decreases n - t,
    {
        if invoices[t].is_invoice_pdf {
            let k = cover_key_exec(&invoices[t]);
            if same_key(&k, key) {
                let ghost before = members@;
                members.push(t);
                assert forall|s: int|
                    0 <= s < t + 1 && invoices@[s].is_invoice_pdf && cover_key(invoices@[s]@)
                        == key@ implies #[trigger] members@.contains(s as usize) by {
                    if s < t {
                        assert(before.contains(s as usize));
                        let w = choose|w: int| 0 <= w < before.len() && before[w] == s as usize;
                        assert(members@[w] == s as usize);
                    } else {
                        assert(members@[members@.len() - 1] == t);
                    }
                }
            }
        }
        t += 1;
    }
    assert forall|s: int|
        0 <= s < invoices@.len() && invoices@[s].is_invoice_pdf && cover_key(invoices@[s]@) == key@
            && (forall|r: int|
            0 <= r < s && invoices@[r].is_invoice_pdf ==> cover_key(invoices@[r]@) != key@)
            implies members@.len() > 0 && members@[0] == s by {
        assert(members@.contains(s as usize));
        let w = choose|w: int| 0 <= w < members@.len() && members@[w] == s as usize;
        let m0 = members@[0];
        assert(cover_key(invoices@[m0 as int]@) == key@);
        if m0 < s {
        } else if w > 0 {
            assert(members@[0] < members@[w]);
        }
    }
    members
}

/// The invoices to put on each reimbursement cover, as indices into
/// `invoices`: one group per owner and buyer, in the order in which they
/// first occur.
pub fn group_for_cover(invoices: &Vec<ParsedInvoice>) -> (res: Vec<Vec<usize>>)
    ensures
        is_cover_grouping(invoice_views(invoices@), res.deep_view()),
{
    let ghost invs = invoice_views(invoices@);
    let n = invoices.len();
    let mut keys: Vec<(String, String)> = Vec::new();
    let mut firsts: Vec<usize> = Vec::new();
    let mut i: usize = 0;
    while i < n
        invariant
            i <= n == invoices@.len() == invs.len(),
            invs == invoice_views(invoices@),
            keys@.len() == firsts@.len(),
            forall|j: int|
                0 <= j < firsts@.len() ==> {
                    &&& #[trigger] firsts@[j] < i
                    &&& invs[firsts@[j] as int].is_invoice_pdf
                    &&& keys@[j]@ == cover_key(invs[firsts@[j] as int])
                    &&& forall|r: int|
                        0 <= r < firsts@[j] && invs[r].is_invoice_pdf ==> cover_key(invs[r])
                            != keys@[j]@
                },
            forall|j1: int, j2: int|
                0 <= j1 < j2 < firsts@.len() ==> #[trigger] firsts@[j1] < #[trigger] firsts@[j2],
            forall|j1: int, j2: int|
                0 <= j1 < keys@.len() && 0 <= j2 < keys@.len() && j1 != j2 ==> (
                #[trigger] keys@[j1])@ != (#[trigger] keys@[j2])@,
            forall|t: int|
                0 <= t < i && #[trigger] invs[t].is_invoice_pdf ==> exists|j: int|
                    0 <= j < keys@.len() && (#[trigger] keys@[j])@ == cover_key(invs[t]),
        decreases n - i,
    {
        assert(invs[i as int] == invoices@[i as int]@);
        if invoices[i].is_invoice_pdf {
            let key = cover_key_exec(&invoices[i]);
            match position_of(&keys, &key) {
                Some(p) => {
                    assert(keys@[p as int]@ == cover_key(invs[i as int]));
                },
                None => {
                    proof {
                        assert forall|r: int|
                            0 <= r < i && invs[r].is_invoice_pdf implies cover_key(invs[r])
                            != key@ by {
                            let j = choose|j: int|
                                0 <= j < keys@.len() && (#[trigger] keys@[j])@ == cover_key(
                                    invs[r],
                                );
                        }
                    }
                    let ghost old_keys = keys@;
                    keys.push(key);
                    firsts.push(i);
                    assert(keys@[keys@.len() - 1]@ == cover_key(invs[i as int]));
                    assert forall|t: int|
                        0 <= t < i && #[trigger] invs[t].is_invoice_pdf implies exists|j: int|
                        0 <= j < keys@.len() && (#[trigger] keys@[j])@ == cover_key(invs[t]) by {
                        let j = choose|j: int|
                            0 <= j < old_keys.len() && (#[trigger] old_keys[j])@ == cover_key(
                                invs[t],
                            );
                        assert(keys@[j] == old_keys[j]);
                    }
                },
            }
        }
        i += 1;
    }
    let m = keys.len();
    let mut groups: Vec<Vec<usize>> = Vec::new();
    let mut j: usize = 0;
    while j < m
        invariant
            j <= m == keys@.len() == firsts@.len(),
            n == invoices@.len() == invs.len(),
            invs == invoice_views(invoices@),
            groups@.len() == j,
            forall|a: int|
                0 <= a < firsts@.len() ==> {
                    &&& #[trigger] firsts@[a] < n
                    &&& invs[firsts@[a] as int].is_invoice_pdf
                    &&& keys@[a]@ == cover_key(invs[firsts@[a] as int])
                    &&& forall|r: int|
                        0 <= r < firsts@[a] && invs[r].is_invoice_pdf ==> cover_key(invs[r])
                            != keys@[a]@
                },
            forall|g: int|
                0 <= g < j ==> {
                    &&& (#[trigger] groups@[g])@.len() > 0
                    &&& groups@[g]@[0] == firsts@[g]
                    &&& forall|k: int|
                        0 <= k < groups@[g]@.len() ==> {
                            &&& #[trigger] groups@[g]@[k] < n
                            &&& invs[groups@[g]@[k] as int].is_invoice_pdf
                            &&& cover_key(invs[groups@[g]@[k] as int]) == keys@[g]@
                        }
                    &&& forall|k1: int, k2: int|
                        0 <= k1 < k2 < groups@[g]@.len() ==> #[trigger] groups@[g]@[k1]
                            < #[trigger] groups@[g]@[k2]
                    &&& forall|t: int|
                        0 <= t < n && invs[t].is_invoice_pdf && cover_key(invs[t]) == keys@[g]@
                            ==> #[trigger] groups@[g]@.contains(t as usize)
                },
        decreases m - j,
    {
        let ghost f = firsts@[j as int];
        assert(invs[f as int] == invoices@[f as int]@);
        assert forall|r: int| 0 <= r < f && invoices@[r].is_invoice_pdf implies cover_key(
            invoices@[r]@,
        ) != keys@[j as int]@ by {
            assert(invs[r] == invoices@[r]@);
        }
        let members = members_with_key(invoices, &keys[j]);
        assert forall|k: int| 0 <= k < members@.len() implies {
            &&& #[trigger] members@[k] < n
            &&& invs[members@[k] as int].is_invoice_pdf
            &&& cover_key(invs[members@[k] as int]) == keys@[j as int]@
        } by {
            assert(invs[members@[k] as int] == invoices@[members@[k] as int]@);
        }
        assert forall|t: int|
            0 <= t < n && invs[t].is_invoice_pdf && cover_key(invs[t]) == keys@[j as int]@ implies #[trigger] members@.contains(
            t as usize,
        ) by {
            assert(invs[t] == invoices@[t]@);
        }
        groups.push(members);
        j += 1;
    }
    proof {
        let gs = groups.deep_view();
        assert forall|g: int| 0 <= g < gs.len() implies gs[g] == groups@[g]@ by {
            assert(groups@[g].deep_view() =~= groups@[g]@);
        }
        assert forall|t: int|
            0 <= t < invs.len() && #[trigger] invs[t].is_invoice_pdf implies exists|g: int, k: int|
            0 <= g < gs.len() && 0 <= k < gs[g].len() && #[trigger] gs[g][k] == t by {
            let a = choose|a: int| 0 <= a < keys@.len() && (#[trigger] keys@[a])@ == cover_key(invs[t]);
            assert(groups@[a]@.contains(t as usize));
            let k = choose|k: int| 0 <= k < groups@[a]@.len() && groups@[a]@[k] == t as usize;
            assert(gs[a][k] == t);
        }
    }
    groups
}


/// Every invoice is in exactly one group, at exactly one place.
pub proof fn lemma_each_invoice_on_one_cover(
    invs: Seq<InvoiceFields>,
    groups: Seq<Seq<usize>>,
    t: int,
)
    requires
        is_cover_grouping(invs, groups),
        0 <= t < invs.len(),
        invs[t].is_invoice_pdf,
    ensures
        exists|g: int, k: int| 0 <= g < groups.len() && 0 <= k < groups[g].len() && groups[g][k] == t,
        forall|g1: int, k1: int, g2: int, k2: int|
            0 <= g1 < groups.len() && 0 <= k1 < groups[g1].len() && 0 <= g2 < groups.len() && 0
                <= k2 < groups[g2].len() && groups[g1][k1] == t && groups[g2][k2] == t ==> g1 == g2
                && k1 == k2,
{
    assert(invs[t].is_invoice_pdf);
    assert forall|g1: int, k1: int, g2: int, k2: int|
        0 <= g1 < groups.len() && 0 <= k1 < groups[g1].len() && 0 <= g2 < groups.len() && 0 <= k2
            < groups[g2].len() && groups[g1][k1] == t && groups[g2][k2] == t implies g1 == g2 && k1
        == k2 by {
        assert(groups[g1][k1] < invs.len());
        assert(groups[g2][k2] < invs.len());
        if g1 != g2 {
            assert(groups[g1][0] < invs.len() && groups[g2][0] < invs.len());
        } else if k1 < k2 {
            assert(groups[g1][k1] < groups[g1][k2]);
        } else if k2 < k1 {
            assert(groups[g1][k2] < groups[g1][k1]);
        }
    }
}

/// The invoices on one cover have the very same owner and the very same
/// buyer as each other, and invoices on different covers differ in owner or
/// in buyer.
pub proof fn lemma_cover_groups_by_owner_and_buyer(invs: Seq<InvoiceFields>, groups: Seq<Seq<usize>>)
    requires
        is_cover_grouping(invs, groups),
    ensures
        forall|g: int, k: int|
            0 <= g < groups.len() && 0 <= k < groups[g].len() ==> {
                &&& invs[#[trigger] groups[g][k] as int].owner == invs[groups[g][0] as int].owner
                &&& invs[groups[g][k] as int].buyer == invs[groups[g][0] as int].buyer
            },
        forall|g1: int, k1: int, g2: int, k2: int|
            0 <= g1 < groups.len() && 0 <= k1 < groups[g1].len() && 0 <= g2 < groups.len() && 0
                <= k2 < groups[g2].len() && invs[#[trigger] groups[g1][k1] as int].owner
                == invs[#[trigger] groups[g2][k2] as int].owner && invs[groups[g1][k1] as int].buyer
                == invs[groups[g2][k2] as int].buyer ==> g1 == g2,
{
    assert forall|g: int, k: int| 0 <= g < groups.len() && 0 <= k < groups[g].len() implies {
        &&& invs[#[trigger] groups[g][k] as int].owner == invs[groups[g][0] as int].owner
        &&& invs[groups[g][k] as int].buyer == invs[groups[g][0] as int].buyer
    } by {
        assert(cover_key(invs[groups[g][k] as int]) == cover_key(invs[groups[g][0] as int]));
    }
    assert forall|g1: int, k1: int, g2: int, k2: int|
        0 <= g1 < groups.len() && 0 <= k1 < groups[g1].len() && 0 <= g2 < groups.len() && 0 <= k2
            < groups[g2].len() && invs[#[trigger] groups[g1][k1] as int].owner
            == invs[#[trigger] groups[g2][k2] as int].owner && invs[groups[g1][k1] as int].buyer
            == invs[groups[g2][k2] as int].buyer implies g1 == g2 by {
        assert(cover_key(invs[groups[g1][k1] as int]) == cover_key(invs[groups[g1][0] as int]));
        assert(cover_key(invs[groups[g2][k2] as int]) == cover_key(invs[groups[g2][0] as int]));
        if g1 != g2 {
            assert(cover_key(invs[groups[g1][0] as int]) != cover_key(invs[groups[g2][0] as int]));
        }
    }
}

/// The name of the cover for one owner and buyer, without extension.
pub open spec fn cover_base_name(owner: Seq<char>, buyer: Seq<char>) -> Seq<char> {
    "费用报销审批单_"@ + owner + "_"@ + buyer
}

/// The files a cover script may write into `output_dir` for one owner and
/// buyer, in the order in which they are reported: the `.xlsx` file for the
/// formats `xlsx` and `both`, then the `.pdf` file for `pdf` and `both`.
pub open spec fn cover_output_files_spec(
    output_dir: Seq<char>,
    owner: Seq<char>,
    buyer: Seq<char>,
    output_format: Seq<char>,
) -> Seq<Seq<char>> {
    let base = output_dir + "/"@ + cover_base_name(owner, buyer);
    let xlsx: Seq<Seq<char>> = if output_format == "xlsx"@ || output_format == "both"@ {
        seq![base + ".xlsx"@]
    } else {
        Seq::empty()
    };
    let pdf: Seq<Seq<char>> = if output_format == "pdf"@ || output_format == "both"@ {
        seq![base + ".pdf"@]
    } else {
        Seq::empty()
    };
    xlsx + pdf
}

/// The files a cover script may write for one owner and buyer; those that
/// exist after the script ran are the result.
pub fn cover_output_files(output_dir: &str, owner: &str, buyer: &str, output_format: &str) -> (res:
    Vec<String>)
    ensures
        res.deep_view() == cover_output_files_spec(output_dir@, owner@, buyer@, output_format@),
{
    let name = concat3("费用报销审批单_", owner, "_");
    let name = concat2(name.as_str(), buyer);
    let base = concat3(output_dir, "/", name.as_str());
    let format = output_format.to_owned();
    let wants_xlsx = format == "xlsx".to_owned() || format == "both".to_owned();
    let wants_pdf = format == "pdf".to_owned() || format == "both".to_owned();
    let mut out: Vec<String> = Vec::new();
    if wants_xlsx {
        out.push(concat2(base.as_str(), ".xlsx"));
    }
    if wants_pdf {
        out.push(concat2(base.as_str(), ".pdf"));
    }
    assert(out.deep_view() =~= cover_output_files_spec(output_dir@, owner@, buyer@, output_format@));
    out
}

/// The ledger file that the ledger script writes into `output_dir`.
pub open spec fn ledger_output_file_spec(output_dir: Seq<char>) -> Seq<char> {
    output_dir + "/费用台账.xlsx"@
}

/// The ledger file that the ledger script writes into `output_dir`.
pub fn ledger_output_file(output_dir: &str) -> (res: String)
    ensures
        res@ == ledger_output_file_spec(output_dir@),
{
    concat2(output_dir, "/费用台账.xlsx")
}


/// The message for a cover or ledger script that exited with failure.
pub open spec fn script_failure_spec(stderr: Seq<u8>) -> Seq<char> {
    "Python脚本执行失败: "@ + utf8_lossy_of(stderr)
}

/// The message for a cover or ledger script that exited with failure.
pub fn script_failure_message(stderr: &[u8]) -> (res: String)
    ensures
        res@ == script_failure_spec(stderr@),
{
    let err = utf8_lossy(stderr);
    concat2("Python脚本执行失败: ", err.as_str())
}

} // verus!

use vstd::prelude::*;

use crate::text::{chars_to_string, dec_digits, lemma_lex_refl, lemma_lex_total, lemma_lex_trans,
    lex_le, lex_le_chars, lower_of, lowercase, string_to_chars, u64_to_dec};

verus! {

/// One entry of a directory listing, produced fresh on every load.
#[derive(Debug, Clone)]
pub struct DirEntryInfo {
    pub name: String,
    pub path: String,
    pub is_dir: bool,
    pub size: u64,
    pub modified: Option<u64>,
}

// ---------------------------------------------------------------------------
// Listing order
// ---------------------------------------------------------------------------

/// Listing order: directories before files, then case-insensitive name
/// order.
pub open spec fn entry_le(a: DirEntryInfo, b: DirEntryInfo) -> bool {
    if a.is_dir != b.is_dir {
        a.is_dir
    } else {
        lex_le(lower_of(a.name@), lower_of(b.name@))
    }
}

pub open spec fn sorted_entries(s: Seq<DirEntryInfo>) -> bool {
    forall|i: int| 0 <= i < s.len() - 1 ==> #[trigger] entry_le(s[i], s[i + 1])
}

fn entry_le_exec(a: &DirEntryInfo, b: &DirEntryInfo) -> (r: bool)
    ensures
        r == entry_le(*a, *b),
{
    if a.is_dir != b.is_dir {
        a.is_dir
    } else {
        let la = lowercase(a.name.as_str());
        let lb = lowercase(b.name.as_str());
        let ca = string_to_chars(la.as_str());
        let cb = string_to_chars(lb.as_str());
        lex_le_chars(&ca, &cb)
    }
}

proof fn lemma_multiset_insert_at(s: Seq<DirEntryInfo>, i: int, e: DirEntryInfo)
    requires
        0 <= i <= s.len(),
    ensures
        s.insert(i, e).to_multiset() == s.to_multiset().insert(e),
{
    broadcast use vstd::seq_lib::group_to_multiset_ensures;

    let t = s.insert(i, e);
    assert(t.remove(i) =~= s);
    assert(t[i] == e);
    assert(t.remove(i).to_multiset() =~= t.to_multiset().remove(e));
    assert(t.to_multiset().contains(e));
    assert(t.to_multiset() =~= s.to_multiset().insert(e));
}

fn insert_entry(v: &mut Vec<DirEntryInfo>, e: DirEntryInfo)
    requires
        sorted_entries(old(v)@),
    ensures
        sorted_entries(final(v)@),
        final(v)@.to_multiset() == old(v)@.to_multiset().insert(e),
{
    let mut i: usize = 0;
    loop
        invariant_except_break
            i <= v@.len(),
            v@ == old(v)@,
            sorted_entries(v@),
            forall|j: int| 0 <= j < i ==> #[trigger] entry_le(v@[j], e),
        ensures
            i <= v@.len(),
            v@ == old(v)@,
            sorted_entries(v@),
            forall|j: int| 0 <= j < i ==> #[trigger] entry_le(v@[j], e),
            i == v@.len() || !entry_le(v@[i as int], e),
        decreases v@.len() - i,
    {
        if i == v.len() {
            break;
        }
        if !entry_le_exec(&v[i], &e) {
            break;
        }
        i = i + 1;
    }
    let ghost old_seq = v@;
    let ghost pos = i as int;
    v.insert(i, e);
    proof {
        assert(v@ == old_seq.insert(pos, e));
        assert(v@.len() == old_seq.len() + 1);
        assert(forall|j: int| 0 <= j < pos ==> v@[j] == old_seq[j]);
        assert(v@[pos] == e);
        assert(forall|j: int| pos < j < v@.len() ==> v@[j] == old_seq[j - 1]);
        assert forall|a: int| 0 <= a < v@.len() - 1 implies #[trigger] entry_le(
            v@[a],
            v@[a + 1],
        ) by {
            if a + 1 < pos {
                assert(entry_le(old_seq[a], old_seq[a + 1]));
            } else if a + 1 == pos {
                assert(entry_le(old_seq[a], e));
            } else if a == pos {
                lemma_entry_le_total(e, old_seq[a]);
            } else {
                let b = a - 1;
                assert(v@[a] == old_seq[b]);
                assert(v@[a + 1] == old_seq[b + 1]);
                assert(entry_le(old_seq[b], old_seq[b + 1]));
            }
        }
        lemma_multiset_insert_at(old_seq, pos, e);
    }
}

proof fn lemma_entry_le_total(a: DirEntryInfo, b: DirEntryInfo)
    ensures
        entry_le(a, b) || entry_le(b, a),
{
    lemma_lex_total(lower_of(a.name@), lower_of(b.name@));
}

/// The listing order chains: an entry listed no later than a second, which
/// is listed no later than a third, is listed no later than the third.
pub proof fn lemma_entry_le_trans(a: DirEntryInfo, b: DirEntryInfo, c: DirEntryInfo)
    requires
        entry_le(a, b),
        entry_le(b, c),
    ensures
        entry_le(a, c),
{
    if a.is_dir == b.is_dir && b.is_dir == c.is_dir {
        lemma_lex_trans(lower_of(a.name@), lower_of(b.name@), lower_of(c.name@));
    }
}

/// A sorted listing is ordered between every pair of positions, not only
/// between neighbours.
pub proof fn lemma_sorted_entries_pairwise(s: Seq<DirEntryInfo>, i: int, j: int)
    requires
        sorted_entries(s),
        0 <= i <= j < s.len(),
    ensures
        entry_le(s[i], s[j]),
    decreases j - i,
{
    if i == j {
        lemma_lex_refl(lower_of(s[i].name@));
    } else if i + 1 == j {
        assert(entry_le(s[i], s[i + 1]));
    } else {
        lemma_sorted_entries_pairwise(s, i + 1, j);
        assert(entry_le(s[i], s[i + 1]));
        lemma_entry_le_trans(s[i], s[i + 1], s[j]);
    }
}

/// Sorts a listing: directories first, then case-insensitive name order,
/// keeping exactly the given entries.
pub fn sort_entries(entries: Vec<DirEntryInfo>) -> (r: Vec<DirEntryInfo>)
    ensures
        sorted_entries(r@),
        r@.to_multiset() == entries@.to_multiset(),
{
    broadcast use vstd::seq_lib::group_to_multiset_ensures;

    let mut out: Vec<DirEntryInfo> = Vec::new();
    let mut rest = entries;
    let ghost all = rest@.to_multiset();
    proof {
        assert(out@.to_multiset().add(rest@.to_multiset()) =~= all);
    }
    loop
        invariant_except_break
            sorted_entries(out@),
            out@.to_multiset().add(rest@.to_multiset()) == all,
        ensures
            sorted_entries(out@),
            rest@.len() == 0,
            out@.to_multiset().add(rest@.to_multiset()) == all,
        decreases rest@.len(),
    {
        if rest.len() == 0 {
            break;
        }
        let ghost rest_before = rest@;
        let ghost out_before = out@;
        let e = rest.remove(0);
        insert_entry(&mut out, e);
        proof {
            rest_before.to_multiset_ensures();
            assert(rest@ =~= rest_before.remove(0));
            assert(rest_before.remove(0).to_multiset() =~= rest_before.to_multiset().remove(
                rest_before[0],
            ));
            assert(out@.to_multiset() =~= out_before.to_multiset().insert(e));
            assert(rest_before.to_multiset().contains(e));
            assert(out@.to_multiset().add(rest@.to_multiset()) =~= all);
        }
    }
    proof {
        assert(rest@.to_multiset().len() == 0);
        assert(out@.to_multiset().add(rest@.to_multiset()) =~= out@.to_multiset());
    }
    out
}

/// The synthetic parent entry listed first when the directory has a parent.
pub fn parent_entry(parent_path: String) -> (r: DirEntryInfo)
    ensures
        r.name@ == ".."@,
        r.path == parent_path,
        r.is_dir,
        r.size == 0,
        r.modified is None,
{
    DirEntryInfo {
        name: "..".to_owned(),
        path: parent_path,
        is_dir: true,
        size: 0,
        modified: None,
    }
}

/// What a freshly installed listing looks like: the synthetic parent entry
/// first when there is one, then exactly the given entries, sorted
/// directories-first and case-insensitively by name.
pub open spec fn listing_ok(r: Seq<DirEntryInfo>, parent: Option<String>, entries: Seq<
    DirEntryInfo,
>) -> bool {
    match parent {
        Option::Some(p) => r.len() == entries.len() + 1 && r[0].name@ == ".."@ && r[0].path == p
            && r[0].is_dir && sorted_entries(r.skip(1)) && r.skip(1).to_multiset()
            == entries.to_multiset(),
        Option::None => sorted_entries(r) && r.to_multiset() == entries.to_multiset(),
    }
}

/// The full listing of a directory: the parent entry first when there is
/// one, then the entries sorted directories-first and case-insensitively by
/// name.
pub fn make_listing(parent: Option<String>, entries: Vec<DirEntryInfo>) -> (r: Vec<DirEntryInfo>)
    ensures
        listing_ok(r@, parent, entries@),
{
    broadcast use vstd::seq_lib::group_to_multiset_ensures;

    let ghost n = entries@.len();
    let sorted = sort_entries(entries);
    proof {
        assert(sorted@.to_multiset().len() == sorted@.len());
        assert(sorted@.len() == n);
    }
    match parent {
        Some(p) => {
            let mut out: Vec<DirEntryInfo> = Vec::new();
            out.push(parent_entry(p));
            let mut s = sorted;
            out.append(&mut s);
            proof {
                assert(out@.skip(1) =~= sorted@);
            }
            out
        },
        None => sorted,
    }
}

// ---------------------------------------------------------------------------
// Display text for sizes and ages
// ---------------------------------------------------------------------------

/// A count of tenths, printed with one decimal place.
pub open spec fn tenths_text(t: int) -> Seq<char> {
    dec_digits(t / 10) + "."@ + dec_digits(t % 10)
}

/// Byte sizes print as bytes below one binary kilobyte, then with one
/// decimal in the next three binary units, rounded to the nearest tenth
/// (half up).
pub open spec fn size_text(bytes: int) -> Seq<char> {
    if bytes < 1024 {
        dec_digits(bytes) + " B"@
    } else if bytes < 1048576 {
        tenths_text((bytes * 10 + 512) / 1024) + " KB"@
    } else if bytes < 1073741824 {
        tenths_text((bytes * 10 + 524288) / 1048576) + " MB"@
    } else {
        tenths_text((bytes * 10 + 536870912) / 1073741824) + " GB"@
    }
}

fn push_tenths(out: &mut Vec<char>, t: u64)
    ensures
        final(out)@ == old(out)@ + tenths_text(t as int),
{
    let mut d = u64_to_dec(t / 10);
    out.append(&mut d);
    out.push('.');
    let mut f = u64_to_dec(t % 10);
    out.append(&mut f);
    proof {
        reveal_strlit(".");
        assert(out@ =~= old(out)@ + tenths_text(t as int));
    }
}

/// Formats a byte size for the listing.
pub fn format_size(bytes: u64) -> (r: String)
    ensures
        r@ == size_text(bytes as int),
{
    let mut out: Vec<char> = Vec::new();
    if bytes < 1024 {
        let mut d = u64_to_dec(bytes);
        out.append(&mut d);
        let mut u = string_to_chars(" B");
        out.append(&mut u);
    } else if bytes < 1048576 {
        let t128: u128 = (bytes as u128 * 10 + 512) / 1024;
        let t = t128 as u64;
        proof {
            assert(t == (bytes * 10 + 512) / 1024) by (nonlinear_arith)
                requires
                    1024 <= bytes < 1048576,
                    t128 == ((bytes * 10 + 512) as int) / 1024,
                    t == t128,
            ;
        }
        push_tenths(&mut out, t);
        let mut u = string_to_chars(" KB");
        out.append(&mut u);
    } else if bytes < 1073741824 {
        let t128: u128 = (bytes as u128 * 10 + 524288) / 1048576;
        let t = t128 as u64;
        proof {
            assert(t == (bytes * 10 + 524288) / 1048576) by (nonlinear_arith)
                requires
                    1048576 <= bytes < 1073741824,
                    t128 == ((bytes * 10 + 524288) as int) / 1048576,
                    t == t128,
            ;
        }
        push_tenths(&mut out, t);
        let mut u = string_to_chars(" MB");
        out.append(&mut u);
    } else {
        let t128: u128 = (bytes as u128 * 10 + 536870912) / 1073741824;
        let t = t128 as u64;
        proof {
            assert(t == (bytes * 10 + 536870912) / 1073741824) by (nonlinear_arith)
                requires
                    bytes >= 1073741824,
                    bytes <= u64::MAX,
                    t128 == ((bytes * 10 + 536870912) as int) / 1073741824,
                    t == t128,
            ;
        }
        push_tenths(&mut out, t);
        let mut u = string_to_chars(" GB");
        out.append(&mut u);
    }
    proof {
        assert(out@ =~= size_text(bytes as int));
    }
    chars_to_string(&out)
}

/// An age in seconds prints as seconds, whole minutes, whole hours or whole
/// days, whichever unit fits.
pub open spec fn elapsed_text(secs: int) -> Seq<char> {
    if secs < 60 {
        dec_digits(secs) + "s ago"@
    } else if secs < 3600 {
        dec_digits(secs / 60) + "m ago"@
    } else if secs < 86400 {
        dec_digits(secs / 3600) + "h ago"@
    } else {
        dec_digits(secs / 86400) + "d ago"@
    }
}

/// Formats the age of an entry; a missing time prints as a dash.
pub fn format_modified(elapsed: Option<u64>) -> (r: String)
    ensures
        match elapsed {
            Option::Some(s) => r@ == elapsed_text(s as int),
            Option::None => r@ == "-"@,
        },
{
    match elapsed {
        Some(secs) => {
            let mut out: Vec<char> = Vec::new();
            let unit: &str;
            let scaled: u64;
            if secs < 60 {
                scaled = secs;
                unit = "s ago";
            } else if secs < 3600 {
                scaled = secs / 60;
                unit = "m ago";
            } else if secs < 86400 {
                scaled = secs / 3600;
                unit = "h ago";
            } else {
                scaled = secs / 86400;
                unit = "d ago";
            }
            let mut d = u64_to_dec(scaled);
            out.append(&mut d);
            let mut u = string_to_chars(unit);
            out.append(&mut u);
            proof {
                assert(out@ =~= elapsed_text(secs as int));
            }
            chars_to_string(&out)
        },
        None => "-".to_owned(),
    }
}

} // verus!

//! Where a download goes on disk.
use crate::text;
use vstd::prelude::*;
use vstd::string::*;

verus! {

/// The name that is tried after `n` others were taken: the wanted one, then the wanted one with a
/// number behind it.
pub open spec fn candidate(output: Seq<char>, n: nat) -> Seq<char> {
    if n == 0 {
        output
    } else {
        output + "."@ + text::decimal(n)
    }
}

/// The name of a file while it is downloaded.
pub open spec fn working_name(target: Seq<char>) -> Seq<char> {
    target + ".dl"@
}

/// Some file in the list has this name.
pub open spec fn taken(existing: Seq<String>, name: Seq<char>) -> bool {
    exists|i: int| 0 <= i < existing.len() && (#[trigger] existing[i])@ == name
}

/// The candidate `n` is free, and none before it is.
pub open spec fn first_free(output: Seq<char>, existing: Seq<String>, n: nat) -> bool {
    &&& !taken(existing, candidate(output, n))
    &&& forall|m: nat| m < n ==> taken(existing, #[trigger] candidate(output, m))
}

fn candidate_path(output: &str, n: u64) -> (r: String)
    ensures
        r@ == candidate(output@, n as nat),
{
    let mut out: String = output.to_string();
    if n > 0 {
        out.append(".");
        text::append_decimal(&mut out, n);
    }
    out
}

fn is_taken(existing: &Vec<String>, name: &String) -> (r: bool)
    ensures
        r == taken(existing@, name@),
{
    let mut i: usize = 0;
    while i < existing.len()
        invariant
            i <= existing.len(),
            forall|k: int| 0 <= k < i ==> (#[trigger] existing@[k])@ != name@,
        decreases existing.len() - i,
    {
        if existing[i] == *name {
            return true;
        }
        i = i + 1;
    }
    false
}

/// The path that a download ends at and the one that it is written to, when the files in
/// `existing` are there. The wanted path is replaced only if that is allowed; if not, the first
/// free one with a number behind it takes its place.
pub fn determine_download_paths(output: &str, overwrite: bool, existing: &Vec<String>) -> (r: (
    String,
    String,
))
    ensures
        overwrite ==> r.0@ == output@,
        !overwrite ==> exists|n: nat|
            first_free(output@, existing@, n) && r.0@ == #[trigger] candidate(output@, n),
        r.1@ == working_name(r.0@),
{
    let mut n: u64 = 0;
    let mut target: String = candidate_path(output, 0);
    while !overwrite && is_taken(existing, &target)
        invariant
            n <= existing.len(),
            target@ == candidate(output@, n as nat),
            overwrite ==> n == 0,
            forall|m: nat| m < n ==> taken(existing@, #[trigger] candidate(output@, m)),
        decreases existing.len() - n,
    {
        proof {
            lemma_candidates_outnumber(output@, existing@, n as nat);
        }
        n = n + 1;
        target = candidate_path(output, n);
    }
    let mut download: String = target.clone();
    download.append(".dl");
    proof {
        if !overwrite {
            assert(first_free(output@, existing@, n as nat));
        }
    }
    (target, download)
}

/// Different numbers give different names.
pub proof fn law_candidates_differ(output: Seq<char>, m: u64, n: u64)
    requires
        m != n,
    ensures
        candidate(output, m as nat) != candidate(output, n as nat),
{
    reveal_strlit(".");
    text::law_printed_number_reads_back(m);
    text::law_printed_number_reads_back(n);
    text::lemma_decimal_digits(m as nat);
    text::lemma_decimal_digits(n as nat);
    let a = candidate(output, m as nat);
    let b = candidate(output, n as nat);
    if a == b {
        if m > 0 && n > 0 {
            let k = output.len() as int + 1;
            assert(a.skip(k) =~= text::decimal(m as nat));
            assert(b.skip(k) =~= text::decimal(n as nat));
        }
    }
}

/// A download that may not replace a file goes to a name that no file has.
pub proof fn law_existing_files_are_kept(
    output: Seq<char>,
    existing: Seq<String>,
    n: nat,
    target: Seq<char>,
)
    requires
        first_free(output, existing, n),
        target == candidate(output, n),
    ensures
        !taken(existing, target),
        !taken(existing, output) ==> target == output,
{
    if n > 0 {
        assert(taken(existing, candidate(output, 0)));
    }
}

/// Names that are all taken are no more than the files are.
proof fn lemma_candidates_outnumber(output: Seq<char>, existing: Seq<String>, n: nat)
    requires
        n <= u64::MAX,
        forall|m: nat| m <= n ==> taken(existing, #[trigger] candidate(output, m)),
    ensures
        n < existing.len(),
{
    let names = Seq::new(n + 1, |i: int| candidate(output, i as nat));
    let files = existing.map_values(|file: String| file@);
    assert(names.no_duplicates()) by {
        assert forall|i: int, j: int| 0 <= i < j < names.len() implies names[i] != names[j] by {
            law_candidates_differ(output, i as u64, j as u64);
        }
    }
    names.unique_seq_to_set();
    files.lemma_cardinality_of_set();
    assert(names.to_set().subset_of(files.to_set())) by {
        assert forall|name: Seq<char>|
            names.to_set().contains(name) implies files.to_set().contains(name) by {
            let i = choose|i: int| 0 <= i < names.len() && names[i] == name;
            assert(taken(existing, candidate(output, i as nat)));
            let k = choose|k: int| 0 <= k < existing.len() && (#[trigger] existing[k])@ == name;
            assert(files[k] == name);
        }
    }
    vstd::set_lib::lemma_len_subset(names.to_set(), files.to_set());
}

/// What is tried for a name that is taken is that name, a dot and a number: 1 first, and one more
/// each time.
pub proof fn law_numbers_stand_behind_the_name(output: Seq<char>, n: u64)
    ensures
        candidate(output, 0) == output,
        output.is_prefix_of(candidate(output, n as nat)),
        n > 0 ==> {
            let tail = candidate(output, n as nat).skip(output.len() as int);
            &&& tail.len() > 1
            &&& tail[0] == '.'
            &&& text::number_value(tail.skip(1)) == Ok::<nat, text::NumberFault>(n as nat)
            &&& tail.skip(1) == text::decimal(n as nat)
        },
{
    reveal_strlit(".");
    text::law_printed_number_reads_back(n);
    text::lemma_decimal_digits(n as nat);
    let name = candidate(output, n as nat);
    assert(name.take(output.len() as int) =~= output);
    if n > 0 {
        let tail = name.skip(output.len() as int);
        assert(tail.skip(1) =~= text::decimal(n as nat));
    }
}

/// A name is taken exactly if it is in the list.
pub proof fn law_names_in_the_list_are_taken(existing: Seq<String>, name: Seq<char>)
    ensures
        taken(existing, name) <==> existing.map_values(|file: String| file@).contains(name),
{
    let files = existing.map_values(|file: String| file@);
    if taken(existing, name) {
        let i = choose|i: int| 0 <= i < existing.len() && (#[trigger] existing[i])@ == name;
        assert(files[i] == name);
    }
    if files.contains(name) {
        let i = choose|i: int| 0 <= i < files.len() && files[i] == name;
        assert(existing[i]@ == name);
    }
}

/// While it is downloaded a file has the name of its target with `.dl` behind it, so different
/// targets have different ones.
pub proof fn law_working_names_end_in_dl(target: Seq<char>, other: Seq<char>)
    ensures
        working_name(target).take(target.len() as int) == target,
        working_name(target).skip(target.len() as int) == seq!['.', 'd', 'l'],
        working_name(target) == working_name(other) ==> target == other,
{
    reveal_strlit(".dl");
    assert(working_name(target).take(target.len() as int) =~= target);
    assert(working_name(other).take(other.len() as int) =~= other);
    assert(working_name(target).skip(target.len() as int) =~= seq!['.', 'd', 'l']);
}

/// A file is written beside its target until it is whole. A target that may be replaced is the
/// one that was wanted; one that may not be is the wanted one if that is free, and none that is
/// there already in any case.
pub proof fn law_download_goes_to_a_free_name(
    output: &str,
    overwrite: bool,
    existing: Vec<String>,
    paths: (String, String),
    i: int,
)
    requires
        call_ensures(determine_download_paths, (output, overwrite, &existing), paths),
    ensures
        paths.1@ == paths.0@ + seq!['.', 'd', 'l'],
        overwrite ==> paths.0@ == output@,
        !overwrite && 0 <= i < existing@.len() ==> paths.0@ != existing@[i]@,
        (forall|k: int| 0 <= k < existing@.len() ==> (#[trigger] existing@[k])@ != output@)
            ==> paths.0@ == output@,
{
    reveal_strlit(".dl");
    assert(working_name(paths.0@) =~= paths.0@ + seq!['.', 'd', 'l']);
    if !overwrite {
        let n = choose|n: nat|
            first_free(output@, existing@, n) && paths.0@ == #[trigger] candidate(output@, n);
        law_existing_files_are_kept(output@, existing@, n, paths.0@);
        if 0 <= i < existing@.len() && paths.0@ == existing@[i]@ {
            assert(taken(existing@, paths.0@));
        }
    }
}

} // verus!

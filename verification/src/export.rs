//! Collecting exported per-commit result files, and the laws that make the
//! export/collect cycle trustworthy.
//!
//! The walk writes one file of records per commit. A later collection pass
//! reads every file of a repository+branch directory — in whatever order the
//! file system enumerates them — and concatenates their records. Shown here:
//! collection depends on the enumeration order only up to record order; as a
//! multiset, the collected records are exactly the exported ones.

use vstd::prelude::*;

use crate::parse::{
    parse_cumulated_benchmark_file, parse_cumulated_spec, views_of_records, BenchmarkResults,
    ParseError, ResultsView,
};
use vstd::multiset::Multiset;
use vstd::seq_lib::lemma_multiset_commutative;

verus! {

broadcast use vstd::seq_lib::group_to_multiset_ensures, vstd::seq_lib::lemma_multiset_commutative, vstd::multiset::group_multiset_axioms;

/// All records of a list of per-commit files, in enumeration order.
pub open spec fn concat_files(files: Seq<Seq<ResultsView>>) -> Seq<ResultsView>
    decreases files.len(),
{
    if files.len() == 0 {
        Seq::empty()
    } else {
        files[0] + concat_files(files.drop_first())
    }
}

/// The records of the files as one multiset.
pub open spec fn files_multiset(files: Seq<Seq<ResultsView>>) -> Multiset<ResultsView>
    decreases files.len(),
{
    if files.len() == 0 {
        Multiset::empty()
    } else {
        files[0].to_multiset().add(files_multiset(files.drop_first()))
    }
}

/// Concatenation carries exactly the files' records.
pub proof fn lemma_concat_files_multiset(files: Seq<Seq<ResultsView>>)
    ensures
        concat_files(files).to_multiset() == files_multiset(files),
    decreases files.len(),
{
    if files.len() == 0 {
        assert(concat_files(files).to_multiset() =~= Multiset::<ResultsView>::empty());
    } else {
        lemma_concat_files_multiset(files.drop_first());
        lemma_multiset_commutative(files[0], concat_files(files.drop_first()));
    }
}

proof fn lemma_files_multiset_remove(files: Seq<Seq<ResultsView>>, j: int)
    requires
        0 <= j < files.len(),
    ensures
        files_multiset(files) == files[j].to_multiset().add(files_multiset(files.remove(j))),
    decreases j,
{
    if j == 0 {
        assert(files.remove(0) =~= files.drop_first());
    } else {
        lemma_files_multiset_remove(files.drop_first(), j - 1);
        assert(files.remove(j).drop_first() =~= files.drop_first().remove(j - 1));
        assert(files.remove(j)[0] == files[0]);
        assert(files.drop_first()[j - 1] == files[j]);
        assert(files[0].to_multiset().add(
            files[j].to_multiset().add(files_multiset(files.drop_first().remove(j - 1))),
        ) =~= files[j].to_multiset().add(
            files[0].to_multiset().add(files_multiset(files.drop_first().remove(j - 1))),
        ));
    }
}

proof fn lemma_files_multiset_permutation(
    files1: Seq<Seq<ResultsView>>,
    files2: Seq<Seq<ResultsView>>,
)
    requires
        files1.to_multiset() == files2.to_multiset(),
    ensures
        files_multiset(files1) == files_multiset(files2),
    decreases files1.len(),
{
    if files1.len() == 0 {
        assert(files1.to_multiset().len() == 0);
        assert(files2.len() == 0);
    } else {
        let f0 = files1[0];
        assert(files1.contains(f0));
        assert(files1.to_multiset().count(f0) > 0);
        assert(files2.to_multiset().count(f0) > 0);
        assert(files2.contains(f0));
        let j = choose|j: int| 0 <= j < files2.len() && files2[j] == f0;
        lemma_files_multiset_remove(files2, j);
        assert(files1.drop_first() =~= files1.remove(0));
        assert(files1.remove(0).to_multiset() == files1.to_multiset().remove(f0));
        assert(files2.remove(j).to_multiset() == files2.to_multiset().remove(f0));
        lemma_files_multiset_permutation(files1.drop_first(), files2.remove(j));
    }
}

/// Collecting is idempotent on content: however the file system enumerates
/// the exported per-commit files, the collected records are, as a multiset,
/// exactly the exported ones.
pub proof fn lemma_collect_enumeration_order_irrelevant(
    files: Seq<Seq<ResultsView>>,
    enumeration: Seq<Seq<ResultsView>>,
)
    requires
        enumeration.to_multiset() == files.to_multiset(),
    ensures
        concat_files(enumeration).to_multiset() == concat_files(files).to_multiset(),
{
    lemma_concat_files_multiset(files);
    lemma_concat_files_multiset(enumeration);
    lemma_files_multiset_permutation(enumeration, files);
}

/// What collecting a directory of file texts means: each file an array of
/// run records, concatenated in enumeration order; the first unreadable
/// file fails the collection.
pub open spec fn collect_spec(texts: Seq<Seq<char>>) -> Result<Seq<ResultsView>, ParseError>
    decreases texts.len(),
{
    if texts.len() == 0 {
        Ok(Seq::empty())
    } else {
        match collect_spec(texts.drop_last()) {
            Err(e) => Err(e),
            Ok(rest) => match parse_cumulated_spec(texts.last()) {
                Err(e) => Err(e),
                Ok(rs) => Ok(rest + rs),
            },
        }
    }
}

proof fn lemma_collect_error_extends(texts: Seq<Seq<char>>, k: int, e: ParseError)
    requires
        0 <= k <= texts.len(),
        collect_spec(texts.take(k)) == Err::<Seq<ResultsView>, ParseError>(e),
    ensures
        collect_spec(texts) == Err::<Seq<ResultsView>, ParseError>(e),
    decreases texts.len() - k,
{
    if k == texts.len() {
        assert(texts.take(k) =~= texts);
    } else {
        assert(texts.drop_last().take(k) =~= texts.take(k));
        lemma_collect_error_extends(texts.drop_last(), k, e);
    }
}

/// Collects the contents of every exported file of one repository+branch
/// directory into one record list, in the order the driver enumerated the
/// files.
pub fn collect_repocheck_results(file_texts: &Vec<String>) -> (r: Result<
    Vec<BenchmarkResults>,
    ParseError,
>)
    ensures
        match r {
            Ok(v) => collect_spec(crate::find::views_of_strings(file_texts@)) == Ok::<
                Seq<ResultsView>,
                ParseError,
            >(views_of_records(v@)),
            Err(e) => collect_spec(crate::find::views_of_strings(file_texts@)) == Err::<
                Seq<ResultsView>,
                ParseError,
            >(e),
        },
{
    let ghost model = crate::find::views_of_strings(file_texts@);
    let mut out: Vec<BenchmarkResults> = Vec::new();
    let n = file_texts.len();
    let mut i: usize = 0;
    proof {
        assert(model.take(0) =~= Seq::<Seq<char>>::empty());
        assert(views_of_records(out@) =~= Seq::<ResultsView>::empty());
    }
    while i < n
        invariant
            0 <= i <= n,
            n == file_texts@.len(),
            model == crate::find::views_of_strings(file_texts@),
            collect_spec(model.take(i as int)) == Ok::<Seq<ResultsView>, ParseError>(
                views_of_records(out@),
            ),
        decreases n - i,
    {
        let ghost prev = out@;
        proof {
            assert(model.take(i + 1).drop_last() =~= model.take(i as int));
            assert(model.take(i + 1).last() == model[i as int]);
            assert(model[i as int] == file_texts@[i as int]@);
        }
        match parse_cumulated_benchmark_file(file_texts[i].as_str()) {
            Ok(mut records) => {
                let ghost parsed = records@;
                out.append(&mut records);
                proof {
                    assert(views_of_records(out@) =~= views_of_records(prev) + views_of_records(
                        parsed,
                    ));
                }
            },
            Err(e) => {
                proof {
                    lemma_collect_error_extends(model, i + 1, e);
                }
                return Err(e);
            },
        }
        i += 1;
    }
    proof {
        assert(model.take(n as int) =~= model);
    }
    Ok(out)
}

} // verus!

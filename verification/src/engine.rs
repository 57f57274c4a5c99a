//! The engine: every enabled rule applied to every file.

use crate::config::{Configuration, ConfigurationView};
use crate::gather::{gather, lemma_gather_same, lemma_gather_step, lemma_gather_without};
use crate::rules::{detect, detected};
use crate::syntax::{SourceFile, SourceFileView};
use crate::violation::{RuleKind, Violation, ViolationView};
use vstd::prelude::*;

verus! {

/// One rule as a function of the file.
pub open spec fn file_rule(kind: RuleKind, config: ConfigurationView) -> spec_fn(
    SourceFileView,
) -> Seq<ViolationView> {
    |file: SourceFileView| detected(kind, file, config)
}

/// What one rule finds in the files, file by file in their order.
pub open spec fn kind_rule(files: Seq<SourceFileView>, config: ConfigurationView) -> spec_fn(
    RuleKind,
) -> Seq<ViolationView> {
    |kind: RuleKind| gather(files, file_rule(kind, config))
}

/// What a run finds: for each enabled rule in turn, what the rule finds in
/// each file in turn. Nothing is left out and nothing is merged.
pub open spec fn run_result(files: Seq<SourceFileView>, config: ConfigurationView) -> Seq<
    ViolationView,
> {
    gather(config.rules.kinds(), kind_rule(files, config))
}

/// Moves the violations of `part` to the end of `found`.
fn extend(found: &mut Vec<Violation>, part: Vec<Violation>)
    ensures
        final(found).deep_view() == old(found).deep_view() + part.deep_view(),
{
    let mut part = part;
    found.append(&mut part);
}

/// Applies every enabled rule to every file.
///
/// The rules are taken in their fixed order and the files in the order
/// given. Every rule sees every file, whatever was found before, and every
/// violation is kept.
pub fn run(files: &Vec<SourceFile>, config: &Configuration) -> (found: Vec<Violation>)
    ensures
        found.deep_view() == run_result(files.deep_view(), config@),
{
    let kinds = config.rules.enabled_kinds();
    let ghost views = files.deep_view();
    let ghost outer = kind_rule(views, config@);
    let mut found: Vec<Violation> = Vec::new();
    let mut k: usize = 0;
    while k < kinds.len()
        invariant
            k <= kinds.len(),
            kinds@ == config@.rules.kinds(),
            views == files.deep_view(),
            outer == kind_rule(views, config@),
            found.deep_view() == gather(kinds@.take(k as int), outer),
        decreases kinds.len() - k,
    {
        let kind = kinds[k];
        let ghost inner = file_rule(kind, config@);
        let ghost earlier = found.deep_view();
        let mut i: usize = 0;
        while i < files.len()
            invariant
                i <= files.len(),
                views == files.deep_view(),
                inner == file_rule(kind, config@),
                found.deep_view() == earlier + gather(views.take(i as int), inner),
            decreases files.len() - i,
        {
            let part = detect(kind, &files[i], config);
            extend(&mut found, part);
            proof {
                lemma_gather_step(views, i as int, inner);
            }
            i = i + 1;
        }
        proof {
            assert(views.take(i as int) =~= views);
            lemma_gather_step(kinds@, k as int, outer);
        }
        k = k + 1;
    }
    assert(kinds@.take(k as int) =~= kinds@);
    found
}

/// A file without functions gives no violation under any rule.
pub proof fn lemma_no_functions_no_violations(
    kind: RuleKind,
    file: SourceFileView,
    config: ConfigurationView,
)
    requires
        file.functions.len() == 0,
    ensures
        detected(kind, file, config).len() == 0,
{
}

/// A file without functions, such as one that could not be parsed, does not
/// change what a run finds: the result is that of the run over the other
/// files.
pub proof fn lemma_run_without_empty_file(
    files: Seq<SourceFileView>,
    config: ConfigurationView,
    index: int,
)
    requires
        0 <= index < files.len(),
        files[index].functions.len() == 0,
    ensures
        run_result(files.remove(index), config) == run_result(files, config),
{
    let kinds = config.rules.kinds();
    let with = kind_rule(files, config);
    let without = kind_rule(files.remove(index), config);
    assert forall|k: int| 0 <= k < kinds.len() implies with(#[trigger] kinds[k]) == without(
        kinds[k],
    ) by {
        lemma_no_functions_no_violations(kinds[k], files[index], config);
        lemma_gather_without(files, index, file_rule(kinds[k], config));
    }
    lemma_gather_same(kinds, with, without);
}

} // verus!

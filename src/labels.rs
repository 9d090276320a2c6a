use vstd::prelude::*;

use crate::error::LabelType;
use crate::error::PushMetricsError;

verus! {

/// What the conflict check reads of a metric family: its name, and the label
/// names of all its metrics, metric after metric.
pub struct FamilyLabels {
    pub name: String,
    pub labels: Vec<String>,
}

/// The texts of a list of strings.
pub open spec fn names_view(labels: Seq<String>) -> Seq<Seq<char>> {
    labels.map_values(|s: String| s@)
}

impl View for FamilyLabels {
    type V = (Seq<char>, Seq<Seq<char>>);

    open spec fn view(&self) -> (Seq<char>, Seq<Seq<char>>) {
        (self.name@, names_view(self.labels@))
    }
}

/// The views of a list of families.
pub open spec fn families_view(families: Seq<FamilyLabels>) -> Seq<(Seq<char>, Seq<Seq<char>>)> {
    families.map_values(|f: FamilyLabels| f@)
}

/// The label name that the gateway attaches itself.
pub open spec fn job_label() -> Seq<char> {
    seq!['j', 'o', 'b']
}

/// A label name that no pushed metric may carry: `job`, or a name of the grouping key.
pub open spec fn is_reserved(label: Seq<char>, grouping: Seq<(String, String)>) -> bool {
    label == job_label() || exists|k: int| 0 <= k < grouping.len() && grouping[k].0@ == label
}

/// The first reserved name among `labels`.
pub open spec fn first_reserved(labels: Seq<Seq<char>>, grouping: Seq<(String, String)>) -> Option<Seq<char>>
    decreases labels.len(),
{
    if labels.len() == 0 {
        None
    } else {
        match first_reserved(labels.drop_last(), grouping) {
            Some(l) => Some(l),
            None => if is_reserved(labels.last(), grouping) {
                Some(labels.last())
            } else {
                None
            },
        }
    }
}

/// The first conflict in a metric set, given as each family's name and label names:
/// the family's name and the label it carries.
pub open spec fn first_conflict(families: Seq<(Seq<char>, Seq<Seq<char>>)>, grouping: Seq<(String, String)>) -> Option<(Seq<char>, Seq<char>)>
    decreases families.len(),
{
    if families.len() == 0 {
        None
    } else {
        match first_conflict(families.drop_last(), grouping) {
            Some(c) => Some(c),
            None => match first_reserved(families.last().1, grouping) {
                Some(l) => Some((families.last().0, l)),
                None => None,
            },
        }
    }
}

/// `label` is the kind that a conflict on the label name `l` reports.
pub open spec fn label_type_of(label: LabelType, l: Seq<char>) -> bool {
    if l == job_label() {
        label is Job
    } else {
        match label {
            LabelType::Grouping(s) => s@ == l,
            LabelType::Job => false,
        }
    }
}

/// Tells whether `label` is reserved, and of which kind.
fn reserved_label(label: &String, grouping: &Vec<(String, String)>) -> (r: Option<LabelType>)
    ensures
        r is Some <==> is_reserved(label@, grouping@),
        r is Some ==> label_type_of(r->0, label@),
{
    let job = String::from_str("job");
    proof {
        reveal_strlit("job");
        assert(job@ =~= job_label());
    }
    if label.eq(&job) {
        return Some(LabelType::Job);
    }
    let mut k: usize = 0;
    while k < grouping.len()
        invariant
            k <= grouping.len(),
            label@ != job_label(),
            forall|j: int| 0 <= j < k ==> grouping@[j].0@ != label@,
        decreases grouping.len() - k,
    {
        if grouping[k].0.eq(label) {
            return Some(LabelType::Grouping(label.clone()));
        }
        k = k + 1;
    }
    None
}

proof fn lemma_first_reserved_push(labels: Seq<Seq<char>>, x: Seq<char>, grouping: Seq<(String, String)>)
    ensures
        first_reserved(labels.push(x), grouping) == (match first_reserved(labels, grouping) {
            Some(l) => Some(l),
            None => if is_reserved(x, grouping) {
                Some(x)
            } else {
                None
            },
        }),
{
    assert(labels.push(x).drop_last() =~= labels);
}

proof fn lemma_first_reserved_prefix(labels: Seq<Seq<char>>, grouping: Seq<(String, String)>, i: int)
    requires
        0 <= i <= labels.len(),
        first_reserved(labels.subrange(0, i), grouping) is Some,
    ensures
        first_reserved(labels, grouping) == first_reserved(labels.subrange(0, i), grouping),
    decreases labels.len() - i,
{
    if i < labels.len() {
        assert(labels.subrange(0, i + 1) =~= labels.subrange(0, i).push(labels[i]));
        lemma_first_reserved_push(labels.subrange(0, i), labels[i], grouping);
        lemma_first_reserved_prefix(labels, grouping, i + 1);
    } else {
        assert(labels.subrange(0, i) =~= labels);
    }
}

/// Finds the first reserved label name among `labels`.
fn find_reserved(labels: &Vec<String>, grouping: &Vec<(String, String)>) -> (r: Option<LabelType>)
    ensures
        match first_reserved(names_view(labels@), grouping@) {
            None => r is None,
            Some(l) => r is Some && label_type_of(r->0, l),
        },
{
    let ghost names = names_view(labels@);
    let mut i: usize = 0;
    proof {
        assert(names.subrange(0, 0) =~= Seq::<Seq<char>>::empty());
    }
    while i < labels.len()
        invariant
            i <= labels.len(),
            names == names_view(labels@),
            first_reserved(names.subrange(0, i as int), grouping@) is None,
        decreases labels.len() - i,
    {
        proof {
            assert(names.subrange(0, i + 1) =~= names.subrange(0, i as int).push(labels@[i as int]@));
            lemma_first_reserved_push(names.subrange(0, i as int), labels@[i as int]@, grouping@);
        }
        let found = reserved_label(&labels[i], grouping);
        if found.is_some() {
            proof {
                lemma_first_reserved_prefix(names, grouping@, i + 1);
            }
            return found;
        }
        i = i + 1;
    }
    proof {
        assert(names.subrange(0, labels.len() as int) =~= names);
    }
    None
}

proof fn lemma_first_conflict_push(
    families: Seq<(Seq<char>, Seq<Seq<char>>)>,
    x: (Seq<char>, Seq<Seq<char>>),
    grouping: Seq<(String, String)>,
)
    ensures
        first_conflict(families.push(x), grouping) == (match first_conflict(families, grouping) {
            Some(c) => Some(c),
            None => match first_reserved(x.1, grouping) {
                Some(l) => Some((x.0, l)),
                None => None,
            },
        }),
{
    assert(families.push(x).drop_last() =~= families);
}

proof fn lemma_first_conflict_prefix(families: Seq<(Seq<char>, Seq<Seq<char>>)>, grouping: Seq<(String, String)>, i: int)
    requires
        0 <= i <= families.len(),
        first_conflict(families.subrange(0, i), grouping) is Some,
    ensures
        first_conflict(families, grouping) == first_conflict(families.subrange(0, i), grouping),
    decreases families.len() - i,
{
    if i < families.len() {
        assert(families.subrange(0, i + 1) =~= families.subrange(0, i).push(families[i]));
        lemma_first_conflict_push(families.subrange(0, i), families[i], grouping);
        lemma_first_conflict_prefix(families, grouping, i + 1);
    } else {
        assert(families.subrange(0, i) =~= families);
    }
}

/// Checks that no metric carries the label `job` or a name of the grouping key.
/// On a conflict it reports the first one, family by family and label by label.
pub fn validate_labels(families: &Vec<FamilyLabels>, grouping: &Vec<(String, String)>) -> (r: Result<(), PushMetricsError>)
    ensures
        match first_conflict(families_view(families@), grouping@) {
            None => r is Ok,
            Some((m, l)) => match r {
                Err(PushMetricsError::AlreadyContainsLabel { metric, label }) => metric@ == m
                    && label_type_of(label, l),
                _ => false,
            },
        },
{
    let ghost view = families_view(families@);
    let mut i: usize = 0;
    proof {
        assert(view.subrange(0, 0) =~= Seq::<(Seq<char>, Seq<Seq<char>>)>::empty());
    }
    while i < families.len()
        invariant
            i <= families.len(),
            view == families_view(families@),
            first_conflict(view.subrange(0, i as int), grouping@) is None,
        decreases families.len() - i,
    {
        proof {
            assert(view.subrange(0, i + 1) =~= view.subrange(0, i as int).push(families@[i as int]@));
            lemma_first_conflict_push(view.subrange(0, i as int), families@[i as int]@, grouping@);
        }
        match find_reserved(&families[i].labels, grouping) {
            Some(label) => {
                proof {
                    lemma_first_conflict_prefix(view, grouping@, i + 1);
                }
                return Err(PushMetricsError::AlreadyContainsLabel { metric: families[i].name.clone(), label });
            },
            None => {},
        }
        i = i + 1;
    }
    proof {
        assert(view.subrange(0, families.len() as int) =~= view);
    }
    Ok(())
}

proof fn lemma_first_reserved_iff(labels: Seq<Seq<char>>, grouping: Seq<(String, String)>)
    ensures
        first_reserved(labels, grouping) is Some <==> exists|k: int|
            0 <= k < labels.len() && is_reserved(#[trigger] labels[k], grouping),
    decreases labels.len(),
{
    if labels.len() > 0 {
        let init = labels.drop_last();
        lemma_first_reserved_iff(init, grouping);
        if first_reserved(init, grouping) is Some {
            let k = choose|k: int| 0 <= k < init.len() && is_reserved(#[trigger] init[k], grouping);
            assert(labels[k] == init[k]);
        }
        if exists|k: int| 0 <= k < labels.len() && is_reserved(#[trigger] labels[k], grouping) {
            let k = choose|k: int| 0 <= k < labels.len() && is_reserved(#[trigger] labels[k], grouping);
            if k < labels.len() - 1 {
                assert(init[k] == labels[k]);
            }
        }
    }
}

/// A metric set has a conflict exactly when some metric of it carries the label `job`
/// or a name of the grouping key. Names of the grouping key alone, `job` among them,
/// never make a conflict.
pub proof fn lemma_conflict_iff_reserved_label(families: Seq<(Seq<char>, Seq<Seq<char>>)>, grouping: Seq<(String, String)>)
    ensures
        first_conflict(families, grouping) is Some <==> exists|i: int, k: int|
            0 <= i < families.len() && 0 <= k < families[i].1.len() && is_reserved(
                #[trigger] families[i].1[k],
                grouping,
            ),
    decreases families.len(),
{
    if families.len() > 0 {
        let init = families.drop_last();
        let last = families.last();
        lemma_conflict_iff_reserved_label(init, grouping);
        lemma_first_reserved_iff(last.1, grouping);
        if first_conflict(init, grouping) is Some {
            let (i, k) = choose|i: int, k: int|
                0 <= i < init.len() && 0 <= k < init[i].1.len() && is_reserved(#[trigger] init[i].1[k], grouping);
            assert(families[i] == init[i]);
        }
        if first_reserved(last.1, grouping) is Some {
            let k = choose|k: int| 0 <= k < last.1.len() && is_reserved(#[trigger] last.1[k], grouping);
            assert(families[families.len() - 1] == last);
        }
        if exists|i: int, k: int|
            0 <= i < families.len() && 0 <= k < families[i].1.len() && is_reserved(#[trigger] families[i].1[k], grouping) {
            let (i, k) = choose|i: int, k: int|
                0 <= i < families.len() && 0 <= k < families[i].1.len() && is_reserved(
                    #[trigger] families[i].1[k],
                    grouping,
                );
            if i < families.len() - 1 {
                assert(init[i] == families[i]);
            } else {
                assert(is_reserved(last.1[k], grouping));
            }
        }
    }
}

/// A metric that carries the label `job` makes the metric set conflict.
pub proof fn lemma_job_label_conflicts(families: Seq<(Seq<char>, Seq<Seq<char>>)>, grouping: Seq<(String, String)>, i: int, k: int)
    requires
        0 <= i < families.len(),
        0 <= k < families[i].1.len(),
        families[i].1[k] == job_label(),
    ensures
        first_conflict(families, grouping) is Some,
{
    lemma_conflict_iff_reserved_label(families, grouping);
    assert(is_reserved(families[i].1[k], grouping));
}

/// A metric that carries a label named like a label of the grouping key makes the
/// metric set conflict.
pub proof fn lemma_grouping_label_conflicts(
    families: Seq<(Seq<char>, Seq<Seq<char>>)>,
    grouping: Seq<(String, String)>,
    i: int,
    k: int,
    j: int,
)
    requires
        0 <= i < families.len(),
        0 <= k < families[i].1.len(),
        0 <= j < grouping.len(),
        families[i].1[k] == grouping[j].0@,
    ensures
        first_conflict(families, grouping) is Some,
{
    lemma_conflict_iff_reserved_label(families, grouping);
    assert(is_reserved(families[i].1[k], grouping));
}

} // verus!

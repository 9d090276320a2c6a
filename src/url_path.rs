use vstd::prelude::*;

use crate::error::PushMetricsError;

verus! {

/// No two labels of the grouping key share a name.
pub open spec fn distinct_names(grouping: Seq<(String, String)>) -> bool {
    forall|i: int, j: int| 0 <= i < j < grouping.len() ==> (#[trigger] grouping[i]).0@ != (#[trigger] grouping[j]).0@
}

/// Tells whether no two labels of the grouping key share a name.
pub fn has_distinct_names(grouping: &Vec<(String, String)>) -> (r: bool)
    ensures
        r == distinct_names(grouping@),
{
    let mut j: usize = 0;
    while j < grouping.len()
        invariant
            j <= grouping.len(),
            forall|a: int, b: int| 0 <= a < b < j ==> (#[trigger] grouping@[a]).0@ != (#[trigger] grouping@[b]).0@,
        decreases grouping.len() - j,
    {
        let mut i: usize = 0;
        while i < j
            invariant
                i <= j < grouping.len(),
                forall|a: int, b: int| 0 <= a < b < j ==> (#[trigger] grouping@[a]).0@ != (#[trigger] grouping@[b]).0@,
                forall|a: int| 0 <= a < i ==> (#[trigger] grouping@[a]).0@ != grouping@[j as int].0@,
            decreases j - i,
        {
            if grouping[i].0.eq(&grouping[j].0) {
                return false;
            }
            i = i + 1;
        }
        j = j + 1;
    }
    true
}

/// The separator between the segments of a push path.
pub open spec fn slash() -> Seq<char> {
    seq!['/']
}

/// What `url::Url::parse(base)` followed by `join(relative)` gives, as text.
pub uninterp spec fn joined_url(base: Seq<char>, relative: Seq<char>) -> Option<Seq<char>>;

/// Relies on `url::Url::parse` and `url::Url::join`: the result is a function of the two strings.
#[verifier::external_body]
fn join_url(base: &str, relative: &str) -> (r: Result<String, url::ParseError>)
    ensures
        match r {
            Ok(u) => joined_url(base@, relative@) == Some(u@),
            Err(_) => joined_url(base@, relative@) is None,
        },
{
    let parsed = url::Url::parse(base)?;
    let joined = parsed.join(relative)?;
    Ok(String::from(joined))
}

/// The path below the job root that the gateway expects: the job name, then each
/// grouping label's name and value, in the order given.
pub open spec fn segments(job: Seq<char>, grouping: Seq<(String, String)>) -> Seq<Seq<char>>
    decreases grouping.len(),
{
    if grouping.len() == 0 {
        seq![job]
    } else {
        let last = grouping.last();
        segments(job, grouping.drop_last()).push(last.0@).push(last.1@)
    }
}

/// The segments joined by the separator.
pub open spec fn join_segments(segs: Seq<Seq<char>>) -> Seq<char>
    decreases segs.len(),
{
    if segs.len() == 0 {
        Seq::empty()
    } else if segs.len() == 1 {
        segs[0]
    } else {
        join_segments(segs.drop_last()) + slash() + segs.last()
    }
}

/// The first segment that holds the separator, if any.
pub open spec fn first_with_slash(segs: Seq<Seq<char>>) -> Option<Seq<char>>
    decreases segs.len(),
{
    if segs.len() == 0 {
        None
    } else {
        match first_with_slash(segs.drop_last()) {
            Some(s) => Some(s),
            None => if segs.last().contains('/') {
                Some(segs.last())
            } else {
                None
            },
        }
    }
}

/// The job name and grouping label values interleaved with the separator.
pub open spec fn grouping_path(job: Seq<char>, grouping: Seq<(String, String)>) -> Seq<char>
    decreases grouping.len(),
{
    if grouping.len() == 0 {
        job
    } else {
        let last = grouping.last();
        grouping_path(job, grouping.drop_last()) + slash() + last.0@ + slash() + last.1@
    }
}

/// The result of building the push URL below `root`.
pub open spec fn push_url(root: Seq<char>, job: Seq<char>, grouping: Seq<(String, String)>) -> Option<Seq<char>> {
    joined_url(root, join_segments(segments(job, grouping)))
}

/// Returns the value unchanged when it holds no separator, and `SlashInName` with it otherwise.
pub fn validate(value: &str) -> (r: Result<&str, PushMetricsError>)
    ensures
        !value@.contains('/') ==> r == Ok::<&str, PushMetricsError>(value),
        value@.contains('/') ==> (match r {
            Err(PushMetricsError::SlashInName(s)) => s@ == value@,
            _ => false,
        }),
{
    let n = value.unicode_len();
    let mut i: usize = 0;
    while i < n
        invariant
            n == value@.len(),
            i <= n,
            forall|k: int| 0 <= k < i ==> value@[k] != '/',
        decreases n - i,
    {
        if value.get_char(i) == '/' {
            return Err(PushMetricsError::SlashInName(String::from_str(value)));
        }
        i = i + 1;
    }
    Ok(value)
}

proof fn lemma_join_segments_step(segs: Seq<Seq<char>>, a: Seq<char>, b: Seq<char>)
    requires
        segs.len() >= 1,
    ensures
        join_segments(segs.push(a).push(b)) == join_segments(segs) + slash() + a + slash() + b,
{
    let s1 = segs.push(a);
    assert(s1.drop_last() =~= segs);
    assert(s1.push(b).drop_last() =~= s1);
    assert(join_segments(s1) == join_segments(segs) + slash() + a);
    assert(join_segments(s1.push(b)) == join_segments(s1) + slash() + b);
}

proof fn lemma_first_with_slash_push(segs: Seq<Seq<char>>, x: Seq<char>)
    ensures
        first_with_slash(segs.push(x)) == (match first_with_slash(segs) {
            Some(s) => Some(s),
            None => if x.contains('/') {
                Some(x)
            } else {
                None
            },
        }),
{
    assert(segs.push(x).drop_last() =~= segs);
}

proof fn lemma_segments_step(job: Seq<char>, grouping: Seq<(String, String)>, i: int)
    requires
        0 <= i < grouping.len(),
    ensures
        segments(job, grouping.subrange(0, i + 1)) == segments(job, grouping.subrange(0, i)).push(
            grouping[i].0@,
        ).push(grouping[i].1@),
{
    let next = grouping.subrange(0, i + 1);
    assert(next.drop_last() =~= grouping.subrange(0, i));
}

/// Builds the push URL below the job root `root`: the job name, then each grouping
/// label's name and value, joined by the separator. Fails with `SlashInName` citing the
/// first of these strings that holds the separator, before anything is joined.
pub fn build_url(root: &str, job: &str, grouping: &Vec<(String, String)>) -> (r: Result<String, PushMetricsError>)
    requires
        distinct_names(grouping@),
    ensures
        match first_with_slash(segments(job@, grouping@)) {
            Some(bad) => match r {
                Err(PushMetricsError::SlashInName(s)) => s@ == bad,
                _ => false,
            },
            None => match r {
                Ok(u) => push_url(root@, job@, grouping@) == Some(u@),
                Err(PushMetricsError::Url(_)) => push_url(root@, job@, grouping@) is None,
                _ => false,
            },
        },
{
    proof {
        reveal_strlit("/");
        assert("/"@ =~= slash());
        assert(grouping@.subrange(0, 0) =~= Seq::<(String, String)>::empty());
        assert(segments(job@, grouping@.subrange(0, 0)) == seq![job@]);
        assert(seq![job@] =~= Seq::<Seq<char>>::empty().push(job@));
        lemma_first_with_slash_push(Seq::empty(), job@);
    }
    match validate(job) {
        Err(e) => {
            proof {
                lemma_first_with_slash_prefix(job@, grouping@, 0);
            }
            return Err(e);
        },
        Ok(_) => {},
    }
    let mut path = String::from_str(job);
    let mut i: usize = 0;
    while i < grouping.len()
        invariant
            i <= grouping.len(),
            "/"@ == slash(),
            first_with_slash(segments(job@, grouping@.subrange(0, i as int))) is None,
            path@ == join_segments(segments(job@, grouping@.subrange(0, i as int))),
            segments(job@, grouping@.subrange(0, i as int)).len() >= 1,
        decreases grouping.len() - i,
    {
        let ghost sp = segments(job@, grouping@.subrange(0, i as int));
        let name = &grouping[i].0;
        let value = &grouping[i].1;
        proof {
            lemma_segments_step(job@, grouping@, i as int);
            lemma_first_with_slash_push(sp, name@);
            lemma_first_with_slash_push(sp.push(name@), value@);
        }
        match validate(name.as_str()) {
            Err(e) => {
                proof {
                    lemma_first_with_slash_prefix(job@, grouping@, i + 1);
                }
                return Err(e);
            },
            Ok(_) => {},
        }
        match validate(value.as_str()) {
            Err(e) => {
                proof {
                    lemma_first_with_slash_prefix(job@, grouping@, i + 1);
                }
                return Err(e);
            },
            Ok(_) => {},
        }
        proof {
            lemma_join_segments_step(sp, name@, value@);
        }
        path.append("/");
        path.append(name.as_str());
        path.append("/");
        path.append(value.as_str());
        i = i + 1;
    }
    assert(grouping@.subrange(0, grouping.len() as int) =~= grouping@);
    match join_url(root, path.as_str()) {
        Ok(u) => Ok(u),
        Err(e) => Err(PushMetricsError::Url(e)),
    }
}

/// Once a prefix of the grouping already has a segment with the separator, so has
/// the whole grouping, and it is the same segment.
proof fn lemma_first_with_slash_prefix(job: Seq<char>, grouping: Seq<(String, String)>, i: int)
    requires
        0 <= i <= grouping.len(),
        first_with_slash(segments(job, grouping.subrange(0, i))) is Some,
    ensures
        first_with_slash(segments(job, grouping)) == first_with_slash(segments(job, grouping.subrange(0, i))),
    decreases grouping.len() - i,
{
    if i < grouping.len() {
        let sp = segments(job, grouping.subrange(0, i));
        lemma_segments_step(job, grouping, i);
        lemma_first_with_slash_push(sp, grouping[i].0@);
        lemma_first_with_slash_push(sp.push(grouping[i].0@), grouping[i].1@);
        lemma_first_with_slash_prefix(job, grouping, i + 1);
    } else {
        assert(grouping.subrange(0, i) =~= grouping);
    }
}

/// The gateway's address with its path closed by the separator, so that joining
/// keeps its last segment.
pub open spec fn with_trailing_slash(url: Seq<char>) -> Seq<char> {
    if url.len() > 0 && url.last() == '/' {
        url
    } else {
        url + slash()
    }
}

/// The job root `<address>/metrics/job/` of the gateway at `url`.
pub open spec fn job_root_of(url: Seq<char>) -> Option<Seq<char>> {
    joined_url(with_trailing_slash(url), "metrics/job/"@)
}

/// Joins the job root `metrics/job/` onto the gateway's address, after closing the
/// address's path with the separator when it lacks one.
pub fn create_metrics_job_url(url: &str) -> (r: Result<String, PushMetricsError>)
    ensures
        match r {
            Ok(u) => job_root_of(url@) == Some(u@),
            Err(PushMetricsError::Url(_)) => job_root_of(url@) is None,
            _ => false,
        },
{
    proof {
        reveal_strlit("/");
        assert("/"@ =~= slash());
    }
    let mut base = String::from_str(url);
    let n = url.unicode_len();
    if n == 0 || url.get_char(n - 1) != '/' {
        base.append("/");
    }
    match join_url(base.as_str(), "metrics/job/") {
        Ok(u) => Ok(u),
        Err(e) => Err(PushMetricsError::Url(e)),
    }
}

/// When neither the job name nor any name or value of the grouping key holds the
/// separator, no segment is cited, and the URL is the job root joined with the job
/// name followed by each name and value, all joined by the separator.
pub proof fn lemma_valid_names_give_url(root: Seq<char>, job: Seq<char>, grouping: Seq<(String, String)>)
    requires
        !job.contains('/'),
        forall|k: int| 0 <= k < grouping.len() ==> !(#[trigger] grouping[k]).0@.contains('/') && !grouping[k].1@.contains('/'),
    ensures
        first_with_slash(segments(job, grouping)) is None,
        push_url(root, job, grouping) == joined_url(root, grouping_path(job, grouping)),
{
    lemma_valid_names_give_path(job, grouping);
}

proof fn lemma_valid_names_give_path(job: Seq<char>, grouping: Seq<(String, String)>)
    requires
        !job.contains('/'),
        forall|k: int| 0 <= k < grouping.len() ==> !(#[trigger] grouping[k]).0@.contains('/') && !grouping[k].1@.contains('/'),
    ensures
        first_with_slash(segments(job, grouping)) is None,
        join_segments(segments(job, grouping)) == grouping_path(job, grouping),
        segments(job, grouping).len() >= 1,
    decreases grouping.len(),
{
    if grouping.len() == 0 {
        assert(seq![job] =~= Seq::<Seq<char>>::empty().push(job));
        lemma_first_with_slash_push(Seq::empty(), job);
    } else {
        let init = grouping.drop_last();
        let last = grouping.last();
        assert forall|k: int| 0 <= k < init.len() implies !(#[trigger] init[k]).0@.contains('/') && !init[k].1@.contains('/') by {
            assert(init[k] == grouping[k]);
        }
        assert(last == grouping[grouping.len() - 1]);
        lemma_valid_names_give_path(job, init);
        let sp = segments(job, init);
        lemma_first_with_slash_push(sp, last.0@);
        lemma_first_with_slash_push(sp.push(last.0@), last.1@);
        lemma_join_segments_step(sp, last.0@, last.1@);
    }
}

/// When the job name or a name or value of the grouping key holds the separator,
/// a segment is cited, and it is one that holds the separator.
pub proof fn lemma_slash_is_cited(job: Seq<char>, grouping: Seq<(String, String)>)
    requires
        job.contains('/') || exists|k: int| 0 <= k < grouping.len() && ((#[trigger] grouping[k]).0@.contains('/') || grouping[k].1@.contains('/')),
    ensures
        first_with_slash(segments(job, grouping)) matches Some(s) && s.contains('/'),
        job.contains('/') ==> first_with_slash(segments(job, grouping)) == Some(job),
    decreases grouping.len(),
{
    if grouping.len() == 0 {
        assert(seq![job] =~= Seq::<Seq<char>>::empty().push(job));
        lemma_first_with_slash_push(Seq::empty(), job);
    } else {
        let init = grouping.drop_last();
        let last = grouping.last();
        let sp = segments(job, init);
        lemma_first_with_slash_push(sp, last.0@);
        lemma_first_with_slash_push(sp.push(last.0@), last.1@);
        if job.contains('/') || exists|k: int| 0 <= k < init.len() && ((#[trigger] init[k]).0@.contains('/') || init[k].1@.contains('/')) {
            lemma_slash_is_cited(job, init);
        } else {
            let k = choose|k: int| 0 <= k < grouping.len() && ((#[trigger] grouping[k]).0@.contains('/') || grouping[k].1@.contains('/'));
            if k < init.len() {
                assert(init[k] == grouping[k]);
            }
            assert(k == grouping.len() - 1);
            lemma_valid_names_give_path(job, init);
        }
    }
}

} // verus!

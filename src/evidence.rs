//! Evidence aggregation: per-claim support and contradiction counts, global
//! verdict statistics, and the admission test for memory writes.
//!
//! Confidences are fixed-point integers in millionths: `1_000_000` is 1.0.
use crate::text::{find_text, has_text, str_eq};
use vstd::prelude::*;

verus! {

/// One unit of confidence, in millionths.
pub const CONFIDENCE_SCALE: u64 = 1_000_000;

/// The confidence that memory writes require: 0.8.
pub const MIN_STORAGE_CONFIDENCE: u64 = 800_000;

pub struct Support {
    pub claim_id: String,
    pub source: String,
    pub confidence: u64,
    pub explanation: Option<String>,
}

pub struct Contradiction {
    pub claim_id: String,
    pub source: String,
    pub confidence: u64,
    pub explanation: Option<String>,
}

#[derive(PartialEq, Eq, Structural, Clone, Copy, Debug)]
pub enum VerdictType {
    Supported,
    Contradicted,
    Neutral,
}

pub struct Verdict {
    pub claim_id: String,
    pub verdict: VerdictType,
    pub confidence: u64,
    pub needs_citation: bool,
}

pub struct Evidence {
    pub claims: Option<Vec<String>>,
    pub supports: Option<Vec<Support>>,
    pub contradicts: Option<Vec<Contradiction>>,
    pub verdicts: Option<Vec<Verdict>>,
}

/// Statistics of one claim.
pub struct ClaimSummary {
    pub supports: usize,
    pub contradictions: usize,
    pub average_confidence: Option<u64>,
    pub max_confidence: Option<u64>,
    pub min_confidence: Option<u64>,
}

/// The outcome of verifying a body of evidence.
pub struct VerificationResult {
    pub total_claims: usize,
    pub supported_claims: usize,
    pub contradicted_claims: usize,
    pub mean_confidence: u64,
    pub needs_citation_count: usize,
    pub max_confidence: u64,
    pub min_confidence: u64,
    /// One entry per distinct claim id, in order of first mention.
    pub per_claim: Vec<(String, ClaimSummary)>,
}

pub enum EvidenceValidationError {
    InsufficientConfidence { mean_confidence: u64, min_required: u64 },
    /// More than half of the verdicts are contradictions.
    TooManyContradictions { contradicted: usize, total: usize },
    MissingSupport { claim_id: String },
}

pub struct EvidenceVerifier;

impl EvidenceValidationError {
    /// The error's message.
    pub fn message(&self) -> String {
        match self {
            EvidenceValidationError::InsufficientConfidence { .. } => String::from_str("Insufficient evidence confidence"),
            EvidenceValidationError::TooManyContradictions { .. } => String::from_str("Too many contradictions"),
            EvidenceValidationError::MissingSupport { claim_id } => {
                let mut m = String::from_str("Claim ");
                m.append(claim_id.as_str());
                m.append(" is missing supporting evidence");
                m
            },
        }
    }
}

// ---------------------------------------------------------------------------
// The mathematical model.

pub open spec fn opt_seq<T>(o: Option<Vec<T>>) -> Seq<T> {
    match o {
        Some(v) => v@,
        None => Seq::empty(),
    }
}

pub open spec fn seq_sum(s: Seq<u64>) -> int
    decreases s.len(),
{
    if s.len() == 0 {
        0
    } else {
        seq_sum(s.drop_last()) + s.last()
    }
}

/// The largest value, or 0 for none.
pub open spec fn seq_max(s: Seq<u64>) -> u64
    decreases s.len(),
{
    if s.len() == 0 {
        0
    } else if seq_max(s.drop_last()) >= s.last() {
        seq_max(s.drop_last())
    } else {
        s.last()
    }
}

/// The smallest value, or 0 for none.
pub open spec fn seq_min(s: Seq<u64>) -> u64
    decreases s.len(),
{
    if s.len() == 0 {
        0
    } else if s.len() == 1 {
        s[0]
    } else if seq_min(s.drop_last()) <= s.last() {
        seq_min(s.drop_last())
    } else {
        s.last()
    }
}

/// Integer mean, rounded down; 0 for none.
pub open spec fn seq_mean(s: Seq<u64>) -> int {
    if s.len() == 0 {
        0
    } else {
        seq_sum(s) / (s.len() as int)
    }
}

pub open spec fn verdicts_of(ev: Evidence) -> Seq<Verdict> {
    opt_seq(ev.verdicts)
}

pub open spec fn verdict_confidences(vs: Seq<Verdict>) -> Seq<u64> {
    vs.map_values(|v: Verdict| v.confidence)
}

pub open spec fn count_kind(vs: Seq<Verdict>, kind: VerdictType) -> nat
    decreases vs.len(),
{
    if vs.len() == 0 {
        0
    } else {
        count_kind(vs.drop_last(), kind) + if vs.last().verdict == kind {
            1nat
        } else {
            0nat
        }
    }
}

pub open spec fn count_citations(vs: Seq<Verdict>) -> nat
    decreases vs.len(),
{
    if vs.len() == 0 {
        0
    } else {
        count_citations(vs.drop_last()) + if vs.last().needs_citation {
            1nat
        } else {
            0nat
        }
    }
}

/// Confidences of the supports of claim `k`, in order.
pub open spec fn support_confs(s: Seq<Support>, k: Seq<char>) -> Seq<u64>
    decreases s.len(),
{
    if s.len() == 0 {
        Seq::empty()
    } else if s.last().claim_id@ == k {
        support_confs(s.drop_last(), k).push(s.last().confidence)
    } else {
        support_confs(s.drop_last(), k)
    }
}

/// Confidences of the contradictions of claim `k`, in order.
pub open spec fn contra_confs(s: Seq<Contradiction>, k: Seq<char>) -> Seq<u64>
    decreases s.len(),
{
    if s.len() == 0 {
        Seq::empty()
    } else if s.last().claim_id@ == k {
        contra_confs(s.drop_last(), k).push(s.last().confidence)
    } else {
        contra_confs(s.drop_last(), k)
    }
}

/// Confidences of the verdicts on claim `k`, in order.
pub open spec fn verdict_confs_for(s: Seq<Verdict>, k: Seq<char>) -> Seq<u64>
    decreases s.len(),
{
    if s.len() == 0 {
        Seq::empty()
    } else if s.last().claim_id@ == k {
        verdict_confs_for(s.drop_last(), k).push(s.last().confidence)
    } else {
        verdict_confs_for(s.drop_last(), k)
    }
}

/// Every confidence recorded for claim `k`: supports, contradictions, verdicts.
pub open spec fn claim_confs(ev: Evidence, k: Seq<char>) -> Seq<u64> {
    support_confs(opt_seq(ev.supports), k) + contra_confs(opt_seq(ev.contradicts), k)
        + verdict_confs_for(opt_seq(ev.verdicts), k)
}

pub open spec fn support_count(ev: Evidence, k: Seq<char>) -> nat {
    support_confs(opt_seq(ev.supports), k).len()
}

pub open spec fn contradiction_count(ev: Evidence, k: Seq<char>) -> nat {
    contra_confs(opt_seq(ev.contradicts), k).len()
}

pub open spec fn in_claims(v: Seq<String>, k: Seq<char>) -> bool {
    exists|i: int| 0 <= i < v.len() && #[trigger] v[i]@ == k
}

pub open spec fn in_supports(v: Seq<Support>, k: Seq<char>) -> bool {
    exists|i: int| 0 <= i < v.len() && #[trigger] v[i].claim_id@ == k
}

pub open spec fn in_contradicts(v: Seq<Contradiction>, k: Seq<char>) -> bool {
    exists|i: int| 0 <= i < v.len() && #[trigger] v[i].claim_id@ == k
}

pub open spec fn in_verdicts(v: Seq<Verdict>, k: Seq<char>) -> bool {
    exists|i: int| 0 <= i < v.len() && #[trigger] v[i].claim_id@ == k
}

/// The evidence mentions claim `k`: in its claim list, or in a support,
/// contradiction or verdict.
pub open spec fn mentions(ev: Evidence, k: Seq<char>) -> bool {
    in_claims(opt_seq(ev.claims), k) || in_supports(opt_seq(ev.supports), k) || in_contradicts(
        opt_seq(ev.contradicts),
        k,
    ) || in_verdicts(opt_seq(ev.verdicts), k)
}

/// The summary of claim `k`.
pub open spec fn summary_is(s: ClaimSummary, ev: Evidence, k: Seq<char>) -> bool {
    let confs = claim_confs(ev, k);
    &&& s.supports == support_count(ev, k)
    &&& s.contradictions == contradiction_count(ev, k)
    &&& s.average_confidence == if confs.len() > 0 {
        Some(seq_mean(confs) as u64)
    } else {
        None
    }
    &&& s.max_confidence == if confs.len() > 0 {
        Some(seq_max(confs))
    } else {
        None
    }
    &&& s.min_confidence == if confs.len() > 0 {
        Some(seq_min(confs))
    } else {
        None
    }
}

/// The mean verdict confidence, rounded down; 0 without verdicts.
pub open spec fn mean_confidence(ev: Evidence) -> int {
    seq_mean(verdict_confidences(verdicts_of(ev)))
}

/// What `verify_evidence` returns for `ev`.
pub open spec fn verification_of(r: VerificationResult, ev: Evidence) -> bool {
    let vs = verdicts_of(ev);
    &&& r.total_claims == vs.len()
    &&& r.supported_claims == count_kind(vs, VerdictType::Supported)
    &&& r.contradicted_claims == count_kind(vs, VerdictType::Contradicted)
    &&& r.mean_confidence == mean_confidence(ev)
    &&& r.needs_citation_count == count_citations(vs)
    &&& r.max_confidence == seq_max(verdict_confidences(vs))
    &&& r.min_confidence == seq_min(verdict_confidences(vs))
    &&& forall|i: int, j: int|
        0 <= i < j < r.per_claim@.len() ==> r.per_claim@[i].0@ != r.per_claim@[j].0@
    &&& forall|i: int|
        0 <= i < r.per_claim@.len() ==> mentions(ev, r.per_claim@[i].0@)
            && summary_is(r.per_claim@[i].1, ev, r.per_claim@[i].0@)
    &&& forall|k: Seq<char>|
        mentions(ev, k) ==> exists|i: int|
            0 <= i < r.per_claim@.len() && #[trigger] r.per_claim@[i].0@ == k
}

/// Evidence that may be stored with minimum confidence `min`: the mean
/// verdict confidence reaches it, every mentioned claim has a support, and at
/// most half of the verdicts are contradictions.
pub open spec fn storable(ev: Evidence, min: u64) -> bool {
    &&& mean_confidence(ev) >= min
    &&& forall|k: Seq<char>| mentions(ev, k) ==> support_count(ev, k) >= 1
    &&& 2 * count_kind(verdicts_of(ev), VerdictType::Contradicted) <= verdicts_of(ev).len()
}

// ---------------------------------------------------------------------------
// Executable aggregation.

/// Sum, largest and smallest of a list of confidences.
fn stats(v: &Vec<u64>) -> (r: (u128, u64, u64))
    ensures
        r.0 == seq_sum(v@),
        r.1 == seq_max(v@),
        r.2 == seq_min(v@),
{
    let mut sum: u128 = 0;
    let mut max: u64 = 0;
    let mut min: u64 = 0;
    let mut i: usize = 0;
    while i < v.len()
        invariant
            i <= v@.len(),
            sum == seq_sum(v@.subrange(0, i as int)),
            sum <= (i as int) * 0xffff_ffff_ffff_ffff,
            max == seq_max(v@.subrange(0, i as int)),
            min == seq_min(v@.subrange(0, i as int)),
        decreases v@.len() - i,
    {
        let x = v[i];
        proof {
            let next = v@.subrange(0, i as int + 1);
            assert(next.drop_last() =~= v@.subrange(0, i as int));
            assert((i as int) * 0xffff_ffff_ffff_ffff + 0xffff_ffff_ffff_ffff == (i as int + 1)
                * 0xffff_ffff_ffff_ffff) by (nonlinear_arith);
            assert((i as int + 1) * 0xffff_ffff_ffff_ffff <= 0xffff_ffff_ffff_ffff
                * 0xffff_ffff_ffff_ffff) by (nonlinear_arith)
                requires
                    i < 0xffff_ffff_ffff_ffff,
            ;
        }
        sum = sum + x as u128;
        if i == 0 {
            min = x;
        } else if x < min {
            min = x;
        }
        if x > max {
            max = x;
        }
        i += 1;
    }
    proof {
        assert(v@.subrange(0, v@.len() as int) =~= v@);
    }
    (sum, max, min)
}

/// Integer mean of `sum` over `n` values, rounded down; 0 for none.
fn mean_of(sum: u128, n: usize, all: Ghost<Seq<u64>>) -> (r: u64)
    requires
        sum == seq_sum(all@),
        n == all@.len(),
    ensures
        r == seq_mean(all@),
{
    if n == 0 {
        0
    } else {
        proof {
            lemma_mean_bounded(all@);
        }
        (sum / (n as u128)) as u64
    }
}

proof fn lemma_sum_bounded(s: Seq<u64>)
    ensures
        0 <= seq_sum(s) <= s.len() * 0xffff_ffff_ffff_ffff,
    decreases s.len(),
{
    if s.len() > 0 {
        lemma_sum_bounded(s.drop_last());
        assert((s.len() - 1) * 0xffff_ffff_ffff_ffff + 0xffff_ffff_ffff_ffff == s.len()
            * 0xffff_ffff_ffff_ffff) by (nonlinear_arith);
    }
}

proof fn lemma_mean_bounded(s: Seq<u64>)
    requires
        s.len() > 0,
    ensures
        0 <= seq_sum(s) / (s.len() as int) <= 0xffff_ffff_ffff_ffff,
{
    lemma_sum_bounded(s);
    let n = s.len() as int;
    let t = seq_sum(s);
    assert(0 <= t / n <= 0xffff_ffff_ffff_ffff) by (nonlinear_arith)
        requires
            n > 0,
            0 <= t <= n * 0xffff_ffff_ffff_ffff,
    ;
}

fn collect_support_confs(s: &Vec<Support>, k: &String) -> (r: Vec<u64>)
    ensures
        r@ == support_confs(s@, k@),
{
    let mut out: Vec<u64> = Vec::new();
    let mut i: usize = 0;
    while i < s.len()
        invariant
            i <= s@.len(),
            out@ == support_confs(s@.subrange(0, i as int), k@),
        decreases s@.len() - i,
    {
        proof {
            assert(s@.subrange(0, i as int + 1).drop_last() =~= s@.subrange(0, i as int));
        }
        if str_eq(s[i].claim_id.as_str(), k.as_str()) {
            out.push(s[i].confidence);
        }
        i += 1;
    }
    proof {
        assert(s@.subrange(0, s@.len() as int) =~= s@);
    }
    out
}

fn collect_contra_confs(s: &Vec<Contradiction>, k: &String) -> (r: Vec<u64>)
    ensures
        r@ == contra_confs(s@, k@),
{
    let mut out: Vec<u64> = Vec::new();
    let mut i: usize = 0;
    while i < s.len()
        invariant
            i <= s@.len(),
            out@ == contra_confs(s@.subrange(0, i as int), k@),
        decreases s@.len() - i,
    {
        proof {
            assert(s@.subrange(0, i as int + 1).drop_last() =~= s@.subrange(0, i as int));
        }
        if str_eq(s[i].claim_id.as_str(), k.as_str()) {
            out.push(s[i].confidence);
        }
        i += 1;
    }
    proof {
        assert(s@.subrange(0, s@.len() as int) =~= s@);
    }
    out
}

fn collect_verdict_confs(s: &Vec<Verdict>, k: &String) -> (r: Vec<u64>)
    ensures
        r@ == verdict_confs_for(s@, k@),
{
    let mut out: Vec<u64> = Vec::new();
    let mut i: usize = 0;
    while i < s.len()
        invariant
            i <= s@.len(),
            out@ == verdict_confs_for(s@.subrange(0, i as int), k@),
        decreases s@.len() - i,
    {
        proof {
            assert(s@.subrange(0, i as int + 1).drop_last() =~= s@.subrange(0, i as int));
        }
        if str_eq(s[i].claim_id.as_str(), k.as_str()) {
            out.push(s[i].confidence);
        }
        i += 1;
    }
    proof {
        assert(s@.subrange(0, s@.len() as int) =~= s@);
    }
    out
}

/// `a` followed by the elements of `b`.
fn concat_confs(a: Vec<u64>, b: &Vec<u64>) -> (r: Vec<u64>)
    ensures
        r@ == a@ + b@,
{
    let mut out = a;
    let ghost start = out@;
    let mut i: usize = 0;
    while i < b.len()
        invariant
            i <= b@.len(),
            out@ == start + b@.subrange(0, i as int),
        decreases b@.len() - i,
    {
        out.push(b[i]);
        proof {
            assert(start + b@.subrange(0, i as int + 1) =~= (start + b@.subrange(0, i as int)).push(b@[i as int]));
        }
        i += 1;
    }
    proof {
        assert(b@.subrange(0, b@.len() as int) =~= b@);
    }
    out
}

/// The statistics of claim `k`.
fn summarize_claim(ev: &Evidence, k: &String) -> (r: ClaimSummary)
    ensures
        summary_is(r, *ev, k@),
{
    let sup = match &ev.supports {
        Some(v) => collect_support_confs(v, k),
        None => Vec::new(),
    };
    let con = match &ev.contradicts {
        Some(v) => collect_contra_confs(v, k),
        None => Vec::new(),
    };
    let ver = match &ev.verdicts {
        Some(v) => collect_verdict_confs(v, k),
        None => Vec::new(),
    };
    proof {
        assert(sup@ == support_confs(opt_seq(ev.supports), k@));
        assert(con@ == contra_confs(opt_seq(ev.contradicts), k@));
        assert(ver@ == verdict_confs_for(opt_seq(ev.verdicts), k@));
    }
    let n_sup = sup.len();
    let n_con = con.len();
    let both = concat_confs(sup, &con);
    let all = concat_confs(both, &ver);
    let (sum, max, min) = stats(&all);
    let n = all.len();
    let avg = mean_of(sum, n, Ghost(all@));
    ClaimSummary {
        supports: n_sup,
        contradictions: n_con,
        average_confidence: if n > 0 {
            Some(avg)
        } else {
            None
        },
        max_confidence: if n > 0 {
            Some(max)
        } else {
            None
        },
        min_confidence: if n > 0 {
            Some(min)
        } else {
            None
        },
    }
}

/// Adds `k` to the distinct list `out` unless it is there already.
fn add_distinct(out: &mut Vec<String>, k: &String)
    requires
        forall|i: int, j: int| 0 <= i < j < old(out)@.len() ==> old(out)@[i]@ != old(out)@[j]@,
    ensures
        forall|i: int, j: int| 0 <= i < j < final(out)@.len() ==> final(out)@[i]@ != final(out)@[j]@,
        forall|x: Seq<char>| has_text(final(out)@, x) <==> (has_text(old(out)@, x) || x == k@),
{
    if !find_text(out, k.as_str()) {
        out.push(k.clone());
        proof {
            assert forall|x: Seq<char>| has_text(final(out)@, x) <==> (has_text(old(out)@, x) || x == k@) by {
                if has_text(final(out)@, x) {
                    let i = choose|i: int| 0 <= i < final(out)@.len() && #[trigger] final(out)@[i]@ == x;
                    if i < old(out)@.len() {
                        assert(old(out)@[i]@ == x);
                    }
                }
                if has_text(old(out)@, x) {
                    let i = choose|i: int| 0 <= i < old(out)@.len() && #[trigger] old(out)@[i]@ == x;
                    assert(final(out)@[i]@ == x);
                }
                if x == k@ {
                    assert(final(out)@[old(out)@.len() as int]@ == x);
                }
            }
        }
    }
}

/// Adds each of `ids` to the distinct list `out`.
fn add_all(out: &mut Vec<String>, ids: &Vec<String>)
    requires
        forall|i: int, j: int| 0 <= i < j < old(out)@.len() ==> old(out)@[i]@ != old(out)@[j]@,
    ensures
        forall|i: int, j: int| 0 <= i < j < final(out)@.len() ==> final(out)@[i]@ != final(out)@[j]@,
        forall|x: Seq<char>| has_text(final(out)@, x) <==> (has_text(old(out)@, x) || has_text(ids@, x)),
{
    let ghost start = out@;
    let mut i: usize = 0;
    while i < ids.len()
        invariant
            i <= ids@.len(),
            forall|a: int, b: int| 0 <= a < b < out@.len() ==> out@[a]@ != out@[b]@,
            forall|x: Seq<char>|
                has_text(out@, x) <==> (has_text(start, x) || has_text(ids@.subrange(0, i as int), x)),
        decreases ids@.len() - i,
    {
        let ghost before = out@;
        add_distinct(out, &ids[i]);
        proof {
            let pre = ids@.subrange(0, i as int);
            let next = ids@.subrange(0, i as int + 1);
            assert forall|x: Seq<char>| has_text(next, x) <==> (has_text(pre, x) || x == ids@[i as int]@) by {
                if has_text(next, x) {
                    let j = choose|j: int| 0 <= j < next.len() && #[trigger] next[j]@ == x;
                    if j < i {
                        assert(pre[j]@ == x);
                    }
                }
                if has_text(pre, x) {
                    let j = choose|j: int| 0 <= j < pre.len() && #[trigger] pre[j]@ == x;
                    assert(next[j]@ == x);
                }
                if x == ids@[i as int]@ {
                    assert(next[i as int]@ == x);
                }
            }
            assert forall|x: Seq<char>| has_text(out@, x) <==> (has_text(start, x) || has_text(next, x)) by {
                assert(has_text(out@, x) <==> (has_text(before, x) || x == ids@[i as int]@));
            }
        }
        i += 1;
    }
    proof {
        assert(ids@.subrange(0, ids@.len() as int) =~= ids@);
    }
}

fn support_ids(s: &Vec<Support>) -> (r: Vec<String>)
    ensures
        forall|x: Seq<char>| has_text(r@, x) <==> in_supports(s@, x),
{
    let mut out: Vec<String> = Vec::new();
    let mut i: usize = 0;
    while i < s.len()
        invariant
            i <= s@.len(),
            out@.len() == i,
            forall|j: int| 0 <= j < i ==> #[trigger] out@[j]@ == s@[j].claim_id@,
        decreases s@.len() - i,
    {
        out.push(s[i].claim_id.clone());
        i += 1;
    }
    proof {
        assert forall|x: Seq<char>| has_text(out@, x) <==> in_supports(s@, x) by {
            if has_text(out@, x) {
                let j = choose|j: int| 0 <= j < out@.len() && #[trigger] out@[j]@ == x;
                assert(s@[j].claim_id@ == x);
            }
            if in_supports(s@, x) {
                let j = choose|j: int| 0 <= j < s@.len() && #[trigger] s@[j].claim_id@ == x;
                assert(out@[j]@ == x);
            }
        }
    }
    out
}

fn contradiction_ids(s: &Vec<Contradiction>) -> (r: Vec<String>)
    ensures
        forall|x: Seq<char>| has_text(r@, x) <==> in_contradicts(s@, x),
{
    let mut out: Vec<String> = Vec::new();
    let mut i: usize = 0;
    while i < s.len()
        invariant
            i <= s@.len(),
            out@.len() == i,
            forall|j: int| 0 <= j < i ==> #[trigger] out@[j]@ == s@[j].claim_id@,
        decreases s@.len() - i,
    {
        out.push(s[i].claim_id.clone());
        i += 1;
    }
    proof {
        assert forall|x: Seq<char>| has_text(out@, x) <==> in_contradicts(s@, x) by {
            if has_text(out@, x) {
                let j = choose|j: int| 0 <= j < out@.len() && #[trigger] out@[j]@ == x;
                assert(s@[j].claim_id@ == x);
            }
            if in_contradicts(s@, x) {
                let j = choose|j: int| 0 <= j < s@.len() && #[trigger] s@[j].claim_id@ == x;
                assert(out@[j]@ == x);
            }
        }
    }
    out
}

fn verdict_ids(s: &Vec<Verdict>) -> (r: Vec<String>)
    ensures
        forall|x: Seq<char>| has_text(r@, x) <==> in_verdicts(s@, x),
{
    let mut out: Vec<String> = Vec::new();
    let mut i: usize = 0;
    while i < s.len()
        invariant
            i <= s@.len(),
            out@.len() == i,
            forall|j: int| 0 <= j < i ==> #[trigger] out@[j]@ == s@[j].claim_id@,
        decreases s@.len() - i,
    {
        out.push(s[i].claim_id.clone());
        i += 1;
    }
    proof {
        assert forall|x: Seq<char>| has_text(out@, x) <==> in_verdicts(s@, x) by {
            if has_text(out@, x) {
                let j = choose|j: int| 0 <= j < out@.len() && #[trigger] out@[j]@ == x;
                assert(s@[j].claim_id@ == x);
            }
            if in_verdicts(s@, x) {
                let j = choose|j: int| 0 <= j < s@.len() && #[trigger] s@[j].claim_id@ == x;
                assert(out@[j]@ == x);
            }
        }
    }
    out
}

/// The distinct claim ids that `ev` mentions, in order of first mention.
fn distinct_claims(ev: &Evidence) -> (r: Vec<String>)
    ensures
        forall|i: int, j: int| 0 <= i < j < r@.len() ==> r@[i]@ != r@[j]@,
        forall|x: Seq<char>| has_text(r@, x) <==> mentions(*ev, x),
{
    let mut out: Vec<String> = Vec::new();
    let s_ids = match &ev.supports {
        Some(v) => support_ids(v),
        None => Vec::new(),
    };
    let x_ids = match &ev.contradicts {
        Some(v) => contradiction_ids(v),
        None => Vec::new(),
    };
    let v_ids = match &ev.verdicts {
        Some(v) => verdict_ids(v),
        None => Vec::new(),
    };
    let empty: Vec<String> = Vec::new();
    let c_ids: &Vec<String> = match &ev.claims {
        Some(v) => v,
        None => &empty,
    };
    assert(c_ids@ == opt_seq(ev.claims));
    add_all(&mut out, c_ids);
    add_all(&mut out, &s_ids);
    add_all(&mut out, &x_ids);
    add_all(&mut out, &v_ids);
    proof {
        assert forall|x: Seq<char>| has_text(out@, x) <==> mentions(*ev, x) by {
            assert(has_text(c_ids@, x) <==> in_claims(opt_seq(ev.claims), x));
            assert(has_text(s_ids@, x) <==> in_supports(opt_seq(ev.supports), x));
            assert(has_text(x_ids@, x) <==> in_contradicts(opt_seq(ev.contradicts), x));
            assert(has_text(v_ids@, x) <==> in_verdicts(opt_seq(ev.verdicts), x));
        }
    }
    out
}

/// Counts and confidences over a list of verdicts.
fn verdict_tallies(vs: &Vec<Verdict>) -> (r: (usize, usize, usize, Vec<u64>))
    ensures
        r.0 == count_kind(vs@, VerdictType::Supported),
        r.1 == count_kind(vs@, VerdictType::Contradicted),
        r.2 == count_citations(vs@),
        r.3@ == verdict_confidences(vs@),
{
    let mut supported: usize = 0;
    let mut contradicted: usize = 0;
    let mut citations: usize = 0;
    let mut confs: Vec<u64> = Vec::new();
    let mut i: usize = 0;
    while i < vs.len()
        invariant
            i <= vs@.len(),
            supported == count_kind(vs@.subrange(0, i as int), VerdictType::Supported),
            contradicted == count_kind(vs@.subrange(0, i as int), VerdictType::Contradicted),
            citations == count_citations(vs@.subrange(0, i as int)),
            supported <= i,
            contradicted <= i,
            citations <= i,
            confs@ =~= verdict_confidences(vs@.subrange(0, i as int)),
        decreases vs@.len() - i,
    {
        proof {
            assert(vs@.subrange(0, i as int + 1).drop_last() =~= vs@.subrange(0, i as int));
            lemma_count_bounded(vs@.subrange(0, i as int + 1));
        }
        let v = &vs[i];
        match v.verdict {
            VerdictType::Supported => {
                supported += 1;
            },
            VerdictType::Contradicted => {
                contradicted += 1;
            },
            VerdictType::Neutral => {},
        }
        if v.needs_citation {
            citations += 1;
        }
        confs.push(v.confidence);
        i += 1;
    }
    proof {
        assert(vs@.subrange(0, vs@.len() as int) =~= vs@);
    }
    (supported, contradicted, citations, confs)
}

proof fn lemma_count_bounded(vs: Seq<Verdict>)
    ensures
        count_kind(vs, VerdictType::Supported) <= vs.len(),
        count_kind(vs, VerdictType::Contradicted) <= vs.len(),
        count_citations(vs) <= vs.len(),
    decreases vs.len(),
{
    if vs.len() > 0 {
        lemma_count_bounded(vs.drop_last());
    }
}

impl EvidenceVerifier {
    /// Aggregates the evidence: verdict counts and confidence statistics, and
    /// one summary per distinct claim id.
    pub fn verify_evidence(&self, evidence: &Evidence) -> (r: VerificationResult)
        ensures
            verification_of(r, *evidence),
    {
        let keys = distinct_claims(evidence);
        let mut per_claim: Vec<(String, ClaimSummary)> = Vec::new();
        let mut i: usize = 0;
        while i < keys.len()
            invariant
                i <= keys@.len(),
                per_claim@.len() == i,
                forall|a: int, b: int| 0 <= a < b < keys@.len() ==> keys@[a]@ != keys@[b]@,
                forall|j: int|
                    0 <= j < i ==> #[trigger] per_claim@[j].0@ == keys@[j]@ && summary_is(
                        per_claim@[j].1,
                        *evidence,
                        keys@[j]@,
                    ),
            decreases keys@.len() - i,
        {
            let summary = summarize_claim(evidence, &keys[i]);
            per_claim.push((keys[i].clone(), summary));
            i += 1;
        }
        let empty: Vec<Verdict> = Vec::new();
        let vs: &Vec<Verdict> = match &evidence.verdicts {
            Some(v) => v,
            None => &empty,
        };
        assert(vs@ == verdicts_of(*evidence));
        let (supported, contradicted, citations, confs) = verdict_tallies(vs);
        let (sum, max, min) = stats(&confs);
        let mean = mean_of(sum, confs.len(), Ghost(confs@));
        let r = VerificationResult {
            total_claims: vs.len(),
            supported_claims: supported,
            contradicted_claims: contradicted,
            mean_confidence: mean,
            needs_citation_count: citations,
            max_confidence: max,
            min_confidence: min,
            per_claim,
        };
        assert forall|i: int| 0 <= i < r.per_claim@.len() implies mentions(*evidence, r.per_claim@[i].0@)
            && summary_is(r.per_claim@[i].1, *evidence, r.per_claim@[i].0@) by {
            assert(r.per_claim@[i].0@ == keys@[i]@);
        }
        assert forall|x: Seq<char>| mentions(*evidence, x) implies exists|j: int|
            0 <= j < r.per_claim@.len() && #[trigger] r.per_claim@[j].0@ == x by {
            assert(has_text(keys@, x));
            let j = choose|j: int| 0 <= j < keys@.len() && #[trigger] keys@[j]@ == x;
            assert(r.per_claim@[j].0@ == x);
        }
        r
    }

    /// Admits evidence for storage with minimum mean confidence
    /// `min_confidence`. The checks run in order: mean confidence, then a
    /// support for every mentioned claim, then the share of contradictions.
    pub fn validate_evidence_for_storage(&self, evidence: &Evidence, min_confidence: u64) -> (r:
        Result<(), EvidenceValidationError>)
        ensures
            r is Ok <==> storable(*evidence, min_confidence),
            (r matches Err(EvidenceValidationError::InsufficientConfidence {
                mean_confidence: m,
                min_required,
            }) && m == mean_confidence(*evidence) && min_required == min_confidence)
                <==> mean_confidence(*evidence) < min_confidence,
            (r is Err && r->Err_0 is InsufficientConfidence) <==> mean_confidence(*evidence) < min_confidence,
            (r is Err && r->Err_0 is TooManyContradictions) <==> (mean_confidence(*evidence) >= min_confidence
                && (forall|k: Seq<char>| mentions(*evidence, k) ==> support_count(*evidence, k) >= 1)
                && 2 * count_kind(verdicts_of(*evidence), VerdictType::Contradicted) > verdicts_of(*evidence).len()),
            r matches Err(EvidenceValidationError::MissingSupport { claim_id }) ==> mentions(
                *evidence,
                claim_id@,
            ) && support_count(*evidence, claim_id@) == 0,
            (r is Err && r->Err_0 is MissingSupport) <==> (mean_confidence(*evidence)
                >= min_confidence && exists|k: Seq<char>|
                mentions(*evidence, k) && support_count(*evidence, k) == 0),
            r matches Err(EvidenceValidationError::TooManyContradictions { contradicted, total })
                ==> contradicted == count_kind(verdicts_of(*evidence), VerdictType::Contradicted)
                && total == verdicts_of(*evidence).len() && 2 * contradicted > total,
    {
        let result = self.verify_evidence(evidence);
        if result.mean_confidence < min_confidence {
            return Err(
                EvidenceValidationError::InsufficientConfidence {
                    mean_confidence: result.mean_confidence,
                    min_required: min_confidence,
                },
            );
        }
        let mut i: usize = 0;
        while i < result.per_claim.len()
            invariant
                i <= result.per_claim@.len(),
                verification_of(result, *evidence),
                result.mean_confidence >= min_confidence,
                forall|j: int| 0 <= j < i ==> (#[trigger] result.per_claim@[j]).1.supports > 0,
            decreases result.per_claim@.len() - i,
        {
            if result.per_claim[i].1.supports == 0 {
                let claim_id = result.per_claim[i].0.clone();
                proof {
                    let k = result.per_claim@[i as int].0@;
                    assert(mentions(*evidence, k));
                    assert(summary_is(result.per_claim@[i as int].1, *evidence, k));
                }
                return Err(EvidenceValidationError::MissingSupport { claim_id });
            }
            i += 1;
        }
        proof {
            assert forall|k: Seq<char>| mentions(*evidence, k) implies support_count(*evidence, k)
                >= 1 by {
                let j = choose|j: int|
                    0 <= j < result.per_claim@.len() && #[trigger] result.per_claim@[j].0@ == k;
                assert(result.per_claim@[j].1.supports > 0);
            }
        }
        proof {
            lemma_count_bounded(verdicts_of(*evidence));
        }
        if result.total_claims > 0 && result.contradicted_claims > result.total_claims
            - result.contradicted_claims {
            return Err(
                EvidenceValidationError::TooManyContradictions {
                    contradicted: result.contradicted_claims,
                    total: result.total_claims,
                },
            );
        }
        Ok(())
    }
}

/// The claim ids of the verdicts that need a citation, in order.
pub open spec fn citation_claims_of(vs: Seq<Verdict>) -> Seq<Seq<char>>
    decreases vs.len(),
{
    if vs.len() == 0 {
        Seq::empty()
    } else if vs.last().needs_citation {
        citation_claims_of(vs.drop_last()).push(vs.last().claim_id@)
    } else {
        citation_claims_of(vs.drop_last())
    }
}

impl Evidence {
    /// The provenance that a write backed by this evidence records: the
    /// claims whose verdicts need a citation; none without verdicts.
    pub fn citation_claims(&self) -> (r: Option<Vec<String>>)
        ensures
            r is None <==> self.verdicts is None,
            r matches Some(v) ==> v@.len() == citation_claims_of(verdicts_of(*self)).len() && forall|i: int|
                0 <= i < v@.len() ==> (#[trigger] v@[i])@ == citation_claims_of(verdicts_of(*self))[i],
    {
        match &self.verdicts {
            Some(vs) => {
                let mut out: Vec<String> = Vec::new();
                let mut i: usize = 0;
                while i < vs.len()
                    invariant
                        i <= vs@.len(),
                        vs@ == verdicts_of(*self),
                        out@.len() == citation_claims_of(vs@.subrange(0, i as int)).len(),
                        forall|j: int| 0 <= j < out@.len() ==> (#[trigger] out@[j])@ == citation_claims_of(vs@.subrange(0, i as int))[j],
                    decreases vs@.len() - i,
                {
                    proof {
                        assert(vs@.subrange(0, i as int + 1).drop_last() =~= vs@.subrange(0, i as int));
                    }
                    if vs[i].needs_citation {
                        out.push(vs[i].claim_id.clone());
                    }
                    i += 1;
                }
                proof {
                    assert(vs@.subrange(0, vs@.len() as int) =~= vs@);
                }
                Some(out)
            },
            None => None,
        }
    }
}

/// Evidence admitted for storage at threshold `tau` has a mean verdict
/// confidence of at least `tau`, at least one support for every claim it
/// mentions, and a contradiction ratio of at most one half.
pub proof fn lemma_storage_admission(ev: Evidence, tau: u64)
    requires
        storable(ev, tau),
    ensures
        mean_confidence(ev) >= tau,
        forall|k: Seq<char>| mentions(ev, k) ==> support_count(ev, k) >= 1,
        count_kind(verdicts_of(ev), VerdictType::Contradicted) * 2 <= verdicts_of(ev).len(),
{
}

} // verus!

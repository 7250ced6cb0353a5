//! The tag-based pattern matcher: partitions instances into those whose tag
//! value matches a compiled pattern and those that do not, key by key, with
//! the earliest applicable key winning.
//!
//! What the regular-expression engine decides is named, not restated: whether
//! a pattern compiles and whether it matches a text are functions of the
//! texts alone, and the contracts here speak of those names.

use vstd::prelude::*;
use vstd::string::StringExecFns;

use crate::errors::MatcherError;
use crate::instance::{spec_tag_lookup, AshufInfo};

verus! {

/// Whether the text `pattern` compiles as a regular expression.
pub uninterp spec fn regex_valid(pattern: Seq<char>) -> bool;

/// Whether the regular expression written `pattern` matches somewhere in
/// `text`.
pub uninterp spec fn regex_match(pattern: Seq<char>, text: Seq<char>) -> bool;

#[verifier::external_type_specification]
#[verifier::external_body]
pub struct ExRegex(regex::Regex);

/// A compiled regular expression, remembering the text it was compiled
/// from.  The fields stay private: every value is built by [`Self::compile`],
/// so the engine inside always belongs to the remembered text.
pub struct CompiledPattern {
    pattern: String,
    regex: regex::Regex,
}

impl CompiledPattern {
    /// The text this pattern was compiled from.
    pub closed spec fn spec_pattern(&self) -> Seq<char> {
        self.pattern@
    }

    /// Relies on `regex::Regex::new`: whether a pattern text compiles is a
    /// function of the text alone, and an invalid pattern is the only error.
    #[verifier::external_body]
    pub fn compile(pattern: &str) -> (r: Result<CompiledPattern, MatcherError>)
        ensures
            r is Ok <==> regex_valid(pattern@),
            r is Ok ==> (r->Ok_0).spec_pattern() == pattern@,
            r is Err ==> r->Err_0 == MatcherError::InvalidPattern,
    {
        match regex::Regex::new(pattern) {
            Ok(regex) => Ok(CompiledPattern { pattern: String::from_str(pattern), regex }),
            Err(_) => Err(MatcherError::InvalidPattern),
        }
    }

    /// Relies on `regex::Regex::is_match`: whether a compiled pattern
    /// matches is a function of the pattern's text and the searched text.
    #[verifier::external_body]
    fn is_match(&self, text: &str) -> (r: bool)
        ensures
            r == regex_match(self.spec_pattern(), text@),
    {
        self.regex.is_match(text)
    }
}

/// Whether an instance carries tag `key` with a value the pattern matches.
/// An instance lacking the key does not match; that is never an error.
pub open spec fn spec_matches_key(pattern: Seq<char>, key: Seq<char>, inst: AshufInfo) -> bool {
    match spec_tag_lookup(inst.tags@, key) {
        Some(v) => regex_match(pattern, v),
        None => false,
    }
}

/// The instances of `s` that match on `key`, in their order in `s`.
pub open spec fn matching(pattern: Seq<char>, key: Seq<char>, s: Seq<AshufInfo>) -> Seq<AshufInfo>
    decreases s.len(),
{
    if s.len() == 0 {
        Seq::empty()
    } else {
        let rest = matching(pattern, key, s.drop_last());
        if spec_matches_key(pattern, key, s.last()) {
            rest.push(s.last())
        } else {
            rest
        }
    }
}

/// The instances of `s` that do not match on `key`, in their order in `s`.
pub open spec fn not_matching(
    pattern: Seq<char>,
    key: Seq<char>,
    s: Seq<AshufInfo>,
) -> Seq<AshufInfo>
    decreases s.len(),
{
    if s.len() == 0 {
        Seq::empty()
    } else {
        let rest = not_matching(pattern, key, s.drop_last());
        if spec_matches_key(pattern, key, s.last()) {
            rest
        } else {
            rest.push(s.last())
        }
    }
}

/// Splits `instances` into those whose value for tag `tag` matches `rexpr`
/// (left) and the rest (right).  Both halves keep their relative order; every
/// instance lands in exactly one half.
pub fn partition_matches(rexpr: &CompiledPattern, tag: &String, instances: Vec<AshufInfo>) -> (r: (
    Vec<AshufInfo>,
    Vec<AshufInfo>,
))
    ensures
        r.0@ == matching(rexpr.spec_pattern(), tag@, instances@),
        r.1@ == not_matching(rexpr.spec_pattern(), tag@, instances@),
{
    let ghost orig = instances@;
    let ghost p = rexpr.spec_pattern();
    let mut instances = instances;
    let mut matched: Vec<AshufInfo> = Vec::new();
    let mut unmatched: Vec<AshufInfo> = Vec::new();
    let mut i: usize = 0;
    let n: usize = instances.len();
    assert(orig.len() == n);
    assert(instances@ =~= orig.subrange(0, orig.len() as int));
    assert(matched@ =~= matching(p, tag@, orig.subrange(0, 0)));
    assert(unmatched@ =~= not_matching(p, tag@, orig.subrange(0, 0)));
    #[verifier::loop_isolation(false)]
    while instances.len() > 0
        invariant
            0 <= i <= orig.len(),
            instances@ =~= orig.subrange(i as int, orig.len() as int),
            matched@ == matching(p, tag@, orig.subrange(0, i as int)),
            unmatched@ == not_matching(p, tag@, orig.subrange(0, i as int)),
        decreases instances.len(),
    {
        let inst = instances.remove(0);
        proof {
            assert(inst == orig[i as int]);
            assert(instances@ =~= orig.subrange(i + 1, orig.len() as int));
            assert(orig.subrange(0, i + 1).drop_last() =~= orig.subrange(0, i as int));
            assert(orig.subrange(0, i + 1).last() == orig[i as int]);
        }
        let matches_here = match inst.tag_value(tag) {
            Some(value) => rexpr.is_match(value.as_str()),
            None => false,
        };
        if matches_here {
            matched.push(inst);
        } else {
            unmatched.push(inst);
        }
        i = i + 1;
    }
    assert(orig.subrange(0, orig.len() as int) =~= orig);
    (matched, unmatched)
}

/// The matched output across a priority-ordered key list: the instances
/// matching the first key, then, of the remainder only, those matching the
/// second, and so on.  An instance is never re-examined once matched.
pub open spec fn spec_matched(
    pattern: Seq<char>,
    keys: Seq<String>,
    insts: Seq<AshufInfo>,
) -> Seq<AshufInfo>
    decreases keys.len(),
{
    if keys.len() == 0 {
        Seq::empty()
    } else {
        matching(pattern, keys[0]@, insts) + spec_matched(
            pattern,
            keys.drop_first(),
            not_matching(pattern, keys[0]@, insts),
        )
    }
}

/// The final remainder across a priority-ordered key list: the instances
/// matching none of the keys.
pub open spec fn spec_unmatched(
    pattern: Seq<char>,
    keys: Seq<String>,
    insts: Seq<AshufInfo>,
) -> Seq<AshufInfo>
    decreases keys.len(),
{
    if keys.len() == 0 {
        insts
    } else {
        spec_unmatched(pattern, keys.drop_first(), not_matching(pattern, keys[0]@, insts))
    }
}

/// Matches `instances` against `pattern` over the tag keys in
/// `interesting_tags`, in priority order.  Fails exactly when the pattern
/// does not compile — fatal to the whole resolution, never per instance.
/// The output is the stable concatenation of each key's pass over the
/// remainder left by the keys before it.
pub fn instances_matching_regex(
    pattern: String,
    interesting_tags: Vec<String>,
    instances: Vec<AshufInfo>,
) -> (r: Result<Vec<AshufInfo>, MatcherError>)
    ensures
        r is Ok <==> regex_valid(pattern@),
        r matches Ok(m) ==> m@ == spec_matched(pattern@, interesting_tags@, instances@),
        r is Err ==> r == Err::<Vec<AshufInfo>, MatcherError>(MatcherError::InvalidPattern),
{
    let rexpr = match CompiledPattern::compile(pattern.as_str()) {
        Ok(rexpr) => rexpr,
        Err(e) => {
            return Err(e);
        },
    };
    let ghost p = pattern@;
    let ghost orig = instances@;
    let ghost keys = interesting_tags@;
    let mut matched: Vec<AshufInfo> = Vec::new();
    let mut unmatched = instances;
    let mut k: usize = 0;
    let nkeys: usize = interesting_tags.len();
    assert(keys.subrange(0, keys.len() as int) =~= keys);
    #[verifier::loop_isolation(false)]
    while k < nkeys
        invariant
            0 <= k <= nkeys,
            matched@ + spec_matched(p, keys.subrange(k as int, nkeys as int), unmatched@)
                =~= spec_matched(p, keys, orig),
            spec_unmatched(p, keys.subrange(k as int, nkeys as int), unmatched@) =~= spec_unmatched(
                p,
                keys,
                orig,
            ),
        decreases nkeys - k,
    {
        let ghost rest_keys = keys.subrange(k as int, nkeys as int);
        let ghost before = unmatched@;
        proof {
            assert(rest_keys[0] == keys[k as int]);
            assert(rest_keys.drop_first() =~= keys.subrange(k + 1, nkeys as int));
        }
        let (m, u) = partition_matches(&rexpr, &interesting_tags[k], unmatched);
        let ghost matched_before = matched@;
        let mut m = m;
        unmatched = u;
        matched.append(&mut m);
        proof {
            assert(spec_matched(p, rest_keys, before) == matching(p, keys[k as int]@, before)
                + spec_matched(p, keys.subrange(k + 1, nkeys as int), unmatched@));
            assert(matched@ + spec_matched(p, keys.subrange(k + 1, nkeys as int), unmatched@)
                =~= matched_before + spec_matched(p, rest_keys, before));
            assert(spec_unmatched(p, rest_keys, before) == spec_unmatched(
                p,
                keys.subrange(k + 1, nkeys as int),
                unmatched@,
            ));
        }
        k = k + 1;
    }
    proof {
        assert(keys.subrange(nkeys as int, nkeys as int) =~= Seq::<String>::empty());
        assert(matched@ =~= spec_matched(p, keys, orig));
    }
    Ok(matched)
}

/// One key's pass neither loses nor duplicates an instance: the matched
/// and the unmatched halves together hold exactly the instances of the
/// input, multiplicities included.
pub proof fn lemma_partition_key_multiset(pattern: Seq<char>, key: Seq<char>, s: Seq<AshufInfo>)
    ensures
        matching(pattern, key, s).to_multiset().add(not_matching(pattern, key, s).to_multiset())
            =~= s.to_multiset(),
    decreases s.len(),
{
    broadcast use vstd::seq_lib::group_to_multiset_ensures;
    broadcast use vstd::multiset::group_multiset_axioms;

    if s.len() > 0 {
        let dl = s.drop_last();
        lemma_partition_key_multiset(pattern, key, dl);
        assert(s =~= dl.push(s.last()));
        assert(s.to_multiset() =~= dl.to_multiset().insert(s.last()));
    }
}

/// The matcher partitions its input: across the whole key list, every
/// instance ends in exactly one of the matched output and the final
/// remainder.  Together the two hold exactly the input instances — none
/// lost, none duplicated, none examined twice.
pub proof fn lemma_matcher_partition(pattern: Seq<char>, keys: Seq<String>, insts: Seq<AshufInfo>)
    ensures
        spec_matched(pattern, keys, insts).to_multiset().add(
            spec_unmatched(pattern, keys, insts).to_multiset(),
        ) =~= insts.to_multiset(),
    decreases keys.len(),
{
    broadcast use vstd::seq_lib::group_to_multiset_ensures;
    broadcast use vstd::multiset::group_multiset_axioms;

    if keys.len() == 0 {
        assert(spec_matched(pattern, keys, insts) =~= Seq::<AshufInfo>::empty());
    } else {
        let key0 = keys[0]@;
        let m0 = matching(pattern, key0, insts);
        let u0 = not_matching(pattern, key0, insts);
        let rest = keys.drop_first();
        lemma_partition_key_multiset(pattern, key0, insts);
        lemma_matcher_partition(pattern, rest, u0);
        vstd::seq_lib::lemma_multiset_commutative(m0, spec_matched(pattern, rest, u0));
    }
}

/// Everything the matched half of one key's pass holds comes from the
/// input and matches on that key; everything the unmatched half holds
/// comes from the input and does not.
pub proof fn lemma_partition_key_sound(pattern: Seq<char>, key: Seq<char>, s: Seq<AshufInfo>)
    ensures
        forall|x: AshufInfo|
            #[trigger] matching(pattern, key, s).contains(x) ==> s.contains(x)
                && spec_matches_key(pattern, key, x),
        forall|x: AshufInfo|
            #[trigger] not_matching(pattern, key, s).contains(x) ==> s.contains(x)
                && !spec_matches_key(pattern, key, x),
    decreases s.len(),
{
    if s.len() > 0 {
        let dl = s.drop_last();
        lemma_partition_key_sound(pattern, key, dl);
        assert forall|x: AshufInfo| dl.contains(x) implies s.contains(x) by {
            let i = choose|i: int| 0 <= i < dl.len() && dl[i] == x;
            assert(s[i] == x);
        }
        assert forall|x: AshufInfo| #[trigger]
            matching(pattern, key, s).contains(x) implies s.contains(x) && spec_matches_key(
            pattern,
            key,
            x,
        ) by {
            let m = matching(pattern, key, s);
            let i = choose|i: int| 0 <= i < m.len() && m[i] == x;
            if spec_matches_key(pattern, key, s.last()) && i == m.len() - 1 {
                assert(x == s.last());
                assert(s.contains(s.last()));
            } else {
                assert(matching(pattern, key, dl).contains(x));
            }
        }
        assert forall|x: AshufInfo| #[trigger]
            not_matching(pattern, key, s).contains(x) implies s.contains(x) && !spec_matches_key(
            pattern,
            key,
            x,
        ) by {
            let u = not_matching(pattern, key, s);
            let i = choose|i: int| 0 <= i < u.len() && u[i] == x;
            if !spec_matches_key(pattern, key, s.last()) && i == u.len() - 1 {
                assert(x == s.last());
                assert(s.contains(s.last()));
            } else {
                assert(not_matching(pattern, key, dl).contains(x));
            }
        }
    }
}

/// The final remainder comes from the input and matches the pattern on
/// none of the tag keys: what the matcher leaves behind was matched by no
/// key of the priority list.
pub proof fn lemma_unmatched_matches_no_key(
    pattern: Seq<char>,
    keys: Seq<String>,
    insts: Seq<AshufInfo>,
)
    ensures
        forall|x: AshufInfo|
            #[trigger] spec_unmatched(pattern, keys, insts).contains(x) ==> insts.contains(x),
        forall|x: AshufInfo, k: int|
            #![trigger spec_unmatched(pattern, keys, insts).contains(x), keys[k]]
            spec_unmatched(pattern, keys, insts).contains(x) && 0 <= k < keys.len()
                ==> !spec_matches_key(pattern, keys[k]@, x),
    decreases keys.len(),
{
    if keys.len() > 0 {
        let key0 = keys[0]@;
        let u0 = not_matching(pattern, key0, insts);
        let rest = keys.drop_first();
        lemma_partition_key_sound(pattern, key0, insts);
        lemma_unmatched_matches_no_key(pattern, rest, u0);
        let fin = spec_unmatched(pattern, keys, insts);
        assert(fin == spec_unmatched(pattern, rest, u0));
        assert forall|x: AshufInfo, k: int|
            #![trigger spec_unmatched(pattern, keys, insts).contains(x), keys[k]]
            fin.contains(x) && 0 <= k < keys.len() implies !spec_matches_key(
            pattern,
            keys[k]@,
            x,
        ) by {
            assert(u0.contains(x));
            if k == 0 {
            } else {
                assert(rest[k - 1] == keys[k]);
            }
        }
    }
}

/// One key's pass misses nothing: an instance of the input whose value for
/// `key` matches stands in the matched half.
pub proof fn lemma_matching_complete(
    pattern: Seq<char>,
    key: Seq<char>,
    s: Seq<AshufInfo>,
    x: AshufInfo,
)
    requires
        s.contains(x),
        spec_matches_key(pattern, key, x),
    ensures
        matching(pattern, key, s).contains(x),
    decreases s.len(),
{
    let i = choose|i: int| 0 <= i < s.len() && s[i] == x;
    if i == s.len() - 1 {
        let m = matching(pattern, key, s);
        assert(m[m.len() - 1] == x);
    } else {
        assert(s.drop_last()[i] == x);
        lemma_matching_complete(pattern, key, s.drop_last(), x);
        let mdl = matching(pattern, key, s.drop_last());
        let j = choose|j: int| 0 <= j < mdl.len() && mdl[j] == x;
        assert(matching(pattern, key, s)[j] == x);
    }
}

/// The earliest applicable key wins: an instance that occurs once in the
/// input and matches the pattern on the first key is taken by the first
/// key's pass, and stands in the matched output exactly once — later keys
/// never re-examine it.
pub proof fn lemma_first_key_wins(
    pattern: Seq<char>,
    keys: Seq<String>,
    insts: Seq<AshufInfo>,
    x: AshufInfo,
)
    requires
        keys.len() > 0,
        insts.to_multiset().count(x) == 1,
        spec_matches_key(pattern, keys[0]@, x),
    ensures
        matching(pattern, keys[0]@, insts).contains(x),
        spec_matched(pattern, keys, insts).to_multiset().count(x) == 1,
{
    broadcast use vstd::seq_lib::group_to_multiset_ensures;
    broadcast use vstd::multiset::group_multiset_axioms;

    assert(insts.contains(x));
    lemma_matching_complete(pattern, keys[0]@, insts, x);
    let m0 = matching(pattern, keys[0]@, insts);
    let whole = spec_matched(pattern, keys, insts);
    let i = choose|i: int| 0 <= i < m0.len() && m0[i] == x;
    assert(whole[i] == x);
    assert(whole.contains(x));
    assert(whole.to_multiset().count(x) > 0);
    lemma_matcher_partition(pattern, keys, insts);
    assert(whole.to_multiset().count(x) + spec_unmatched(pattern, keys, insts).to_multiset().count(
        x,
    ) == 1);
}

/// Everything the matched output holds comes from the input and matches
/// the pattern on at least one of the tag keys.
pub proof fn lemma_matched_matches_some_key(
    pattern: Seq<char>,
    keys: Seq<String>,
    insts: Seq<AshufInfo>,
)
    ensures
        forall|x: AshufInfo|
            #[trigger] spec_matched(pattern, keys, insts).contains(x) ==> insts.contains(x) && (
            exists|k: int|
                0 <= k < keys.len() && spec_matches_key(pattern, #[trigger] keys[k]@, x)),
    decreases keys.len(),
{
    if keys.len() > 0 {
        let key0 = keys[0]@;
        let m0 = matching(pattern, key0, insts);
        let u0 = not_matching(pattern, key0, insts);
        let rest = keys.drop_first();
        lemma_partition_key_sound(pattern, key0, insts);
        lemma_matched_matches_some_key(pattern, rest, u0);
        assert forall|x: AshufInfo| #[trigger]
            spec_matched(pattern, keys, insts).contains(x) implies insts.contains(x) && (exists|
            k: int,
        |
            0 <= k < keys.len() && spec_matches_key(pattern, #[trigger] keys[k]@, x)) by {
            let whole = spec_matched(pattern, keys, insts);
            let i = choose|i: int| 0 <= i < whole.len() && whole[i] == x;
            if i < m0.len() {
                assert(m0[i] == x);
                assert(m0.contains(x));
                assert(spec_matches_key(pattern, keys[0]@, x));
            } else {
                let tail = spec_matched(pattern, rest, u0);
                assert(tail[i - m0.len()] == x);
                assert(tail.contains(x));
                let k = choose|k: int|
                    0 <= k < rest.len() && spec_matches_key(pattern, #[trigger] rest[k]@, x);
                assert(rest[k] == keys[k + 1]);
                assert(spec_matches_key(pattern, keys[k + 1]@, x));
            }
        }
    }
}

/// Keeps only the instances whose lifecycle state reads `running`, in
/// order.
pub open spec fn spec_running(insts: Seq<AshufInfo>) -> Seq<AshufInfo>
    decreases insts.len(),
{
    if insts.len() == 0 {
        Seq::empty()
    } else {
        let rest = spec_running(insts.drop_last());
        if insts.last().state_name@ == "running"@ {
            rest.push(insts.last())
        } else {
            rest
        }
    }
}

/// Filters a list down to the instances in the `running` lifecycle state.
pub fn running_instances(instances: Vec<AshufInfo>) -> (r: Vec<AshufInfo>)
    ensures
        r@ == spec_running(instances@),
{
    let running = String::from_str("running");
    let ghost orig = instances@;
    let mut instances = instances;
    let mut out: Vec<AshufInfo> = Vec::new();
    let mut i: usize = 0;
    let n: usize = instances.len();
    assert(orig.len() == n);
    assert(instances@ =~= orig.subrange(0, orig.len() as int));
    assert(out@ =~= spec_running(orig.subrange(0, 0)));
    #[verifier::loop_isolation(false)]
    while instances.len() > 0
        invariant
            0 <= i <= orig.len(),
            instances@ =~= orig.subrange(i as int, orig.len() as int),
            out@ == spec_running(orig.subrange(0, i as int)),
            running@ == "running"@,
        decreases instances.len(),
    {
        let inst = instances.remove(0);
        proof {
            assert(inst == orig[i as int]);
            assert(instances@ =~= orig.subrange(i + 1, orig.len() as int));
            assert(orig.subrange(0, i + 1).drop_last() =~= orig.subrange(0, i as int));
            assert(orig.subrange(0, i + 1).last() == orig[i as int]);
        }
        if inst.state_name == running {
            out.push(inst);
        }
        i = i + 1;
    }
    assert(orig.subrange(0, orig.len() as int) =~= orig);
    out
}

} // verus!

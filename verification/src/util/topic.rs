use vstd::prelude::*;

verus! {

/// The levels of a topic: the parts between its slashes, in order.
pub open spec fn topic_levels(s: Seq<char>) -> Seq<Seq<char>>
    decreases s.len(),
{
    if s.len() == 0 {
        seq![seq![]]
    } else {
        let r = topic_levels(s.drop_last());
        if s.last() == '/' {
            r.push(seq![])
        } else {
            r.update(r.len() - 1, r.last().push(s.last()))
        }
    }
}

/// Topic filter levels match topic levels: `#` matches whatever is left, including
/// nothing; `+` matches exactly one level; any other level matches itself.
pub open spec fn levels_match(f: Seq<Seq<char>>, t: Seq<Seq<char>>) -> bool
    decreases f.len(),
{
    if f.len() == 0 {
        t.len() == 0
    } else if f[0] == seq!['#'] {
        true
    } else if t.len() == 0 {
        false
    } else if f[0] == seq!['+'] || f[0] == t[0] {
        levels_match(f.skip(1), t.skip(1))
    } else {
        false
    }
}

/// A topic filter matches a topic, level by level.
pub open spec fn topic_matches(filter: Seq<char>, topic: Seq<char>) -> bool {
    levels_match(topic_levels(filter), topic_levels(topic))
}

proof fn lemma_topic_levels_nonempty(s: Seq<char>)
    ensures
        topic_levels(s).len() >= 1,
    decreases s.len(),
{
    if s.len() > 0 {
        lemma_topic_levels_nonempty(s.drop_last());
    }
}

/// The views of a list of character vectors.
pub open spec fn views(v: Seq<Vec<char>>) -> Seq<Seq<char>> {
    v.map_values(|x: Vec<char>| x@)
}

fn split_levels(s: &str) -> (levels: Vec<Vec<char>>)
    ensures
        views(levels@) == topic_levels(s@),
{
    let mut levels: Vec<Vec<char>> = Vec::new();
    levels.push(Vec::new());
    proof {
        assert(s@.take(0) =~= Seq::<char>::empty());
        assert(views(levels@) =~= seq![Seq::<char>::empty()]);
    }
    for c in it: s.chars()
        invariant
            it.seq() == s@,
            views(levels@) == topic_levels(s@.take(it.index() as int)),
            levels@.len() >= 1,
    {
        let ghost prev = s@.take(it.index() as int);
        proof {
            assert(s@.take(it.index() + 1).drop_last() =~= prev);
            assert(s@.take(it.index() + 1).last() == c);
            lemma_topic_levels_nonempty(prev);
        }
        if c == '/' {
            levels.push(Vec::new());
            proof {
                assert(views(levels@) =~= topic_levels(prev).push(seq![]));
            }
        } else {
            let n = levels.len();
            let ghost before = levels@;
            levels[n - 1].push(c);
            proof {
                assert(views(levels@) =~= topic_levels(prev).update(
                    topic_levels(prev).len() - 1,
                    topic_levels(prev).last().push(c),
                ));
            }
        }
    }
    proof {
        assert(s@.take(s@.len() as int) =~= s@);
    }
    levels
}

fn chars_eq(a: &Vec<char>, b: &Vec<char>) -> (r: bool)
    ensures
        r == (a@ == b@),
{
    if a.len() != b.len() {
        return false;
    }
    for i in 0..a.len()
        invariant
            a@.len() == b@.len(),
            forall|j: int| 0 <= j < i ==> a@[j] == b@[j],
    {
        if a[i] != b[i] {
            return false;
        }
    }
    proof {
        assert(a@ =~= b@);
    }
    true
}

fn is_single(level: &Vec<char>, c: char) -> (r: bool)
    ensures
        r == (level@ == seq![c]),
{
    if level.len() == 1 {
        let r = level[0] == c;
        proof {
            if !r {
                assert(level@[0] != seq![c][0]);
            } else {
                assert(level@ =~= seq![c]);
            }
        }
        r
    } else {
        false
    }
}

/// Whether a topic filter matches a topic.
pub fn match_topic(filter: &str, topic: &str) -> (r: bool)
    ensures
        r == topic_matches(filter@, topic@),
{
    let f = split_levels(filter);
    let t = split_levels(topic);
    let ghost fv = views(f@);
    let ghost tv = views(t@);
    let mut i: usize = 0;
    proof {
        assert(fv.skip(0) =~= fv);
        assert(tv.skip(0) =~= tv);
    }
    loop
        invariant
            fv == views(f@),
            tv == views(t@),
            fv == topic_levels(filter@),
            tv == topic_levels(topic@),
            fv.len() == f@.len(),
            tv.len() == t@.len(),
            i <= f@.len(),
            i <= t@.len(),
            levels_match(fv, tv) == levels_match(fv.skip(i as int), tv.skip(i as int)),
        decreases f@.len() - i,
    {
        let ghost fs = fv.skip(i as int);
        let ghost ts = tv.skip(i as int);
        proof {
            assert(fs.len() == f@.len() - i);
            assert(ts.len() == t@.len() - i);
        }
        if i == f.len() {
            return i == t.len();
        }
        proof {
            assert(fs[0] == f@[i as int]@);
        }
        if is_single(&f[i], '#') {
            return true;
        }
        if i == t.len() {
            return false;
        }
        proof {
            assert(ts[0] == t@[i as int]@);
            assert(fs.skip(1) =~= fv.skip(i + 1));
            assert(ts.skip(1) =~= tv.skip(i + 1));
        }
        if is_single(&f[i], '+') || chars_eq(&f[i], &t[i]) {
            i = i + 1;
        } else {
            return false;
        }
    }
}

/// Every topic filter matches itself, read as a topic.
pub proof fn lemma_levels_match_self(l: Seq<Seq<char>>)
    ensures
        levels_match(l, l),
    decreases l.len(),
{
    if l.len() > 0 {
        lemma_levels_match_self(l.skip(1));
    }
}

/// Every topic matches itself as a filter.
pub proof fn lemma_topic_matches_itself(topic: Seq<char>)
    ensures
        topic_matches(topic, topic),
{
    lemma_levels_match_self(topic_levels(topic));
}

/// The filter `#` matches every topic.
pub proof fn lemma_hash_matches_all(topic: Seq<char>)
    ensures
        topic_matches(seq!['#'], topic),
{
    reveal_with_fuel(topic_levels, 2);
    assert(seq!['#'].drop_last() =~= Seq::<char>::empty());
    assert(topic_levels(seq!['#']) =~= seq![seq!['#']]);
}

/// Filter levels without wildcards match only the same levels.
pub proof fn lemma_plain_levels_match(f: Seq<Seq<char>>, t: Seq<Seq<char>>)
    requires
        forall|i: int| 0 <= i < f.len() ==> #[trigger] f[i] != seq!['#'] && f[i] != seq!['+'],
    ensures
        levels_match(f, t) <==> f == t,
    decreases f.len(),
{
    if f.len() == 0 {
        if t.len() == 0 {
            assert(f =~= t);
        }
    } else if t.len() == 0 {
    } else {
        assert(f[0] != seq!['#'] && f[0] != seq!['+']);
        assert forall|i: int| 0 <= i < f.skip(1).len() implies #[trigger] f.skip(1)[i] != seq!['#']
            && f.skip(1)[i] != seq!['+'] by {
            assert(f.skip(1)[i] == f[i + 1]);
        }
        lemma_plain_levels_match(f.skip(1), t.skip(1));
        if f == t {
            assert(f.skip(1) =~= t.skip(1));
        }
        if f[0] == t[0] && f.skip(1) == t.skip(1) {
            assert forall|i: int| 0 <= i < f.len() implies f[i] == t[i] by {
                if i > 0 {
                    assert(f[i] == f.skip(1)[i - 1]);
                    assert(t[i] == t.skip(1)[i - 1]);
                }
            }
            assert(f =~= t);
        }
    }
}

/// The levels joined back with slashes.
pub open spec fn join_levels(l: Seq<Seq<char>>) -> Seq<char>
    decreases l.len(),
{
    if l.len() <= 1 {
        if l.len() == 0 {
            seq![]
        } else {
            l[0]
        }
    } else {
        join_levels(l.drop_last()) + seq!['/'] + l.last()
    }
}

/// Joining the levels of a topic gives the topic back.
pub proof fn lemma_join_topic_levels(s: Seq<char>)
    ensures
        join_levels(topic_levels(s)) == s,
    decreases s.len(),
{
    if s.len() > 0 {
        let p = s.drop_last();
        let c = s.last();
        lemma_join_topic_levels(p);
        lemma_topic_levels_nonempty(p);
        let l = topic_levels(p);
        assert(s =~= p.push(c));
        if c == '/' {
            let m = l.push(seq![]);
            assert(m.drop_last() =~= l);
            assert(join_levels(m) =~= p + seq!['/']);
        } else {
            let m = l.update(l.len() - 1, l.last().push(c));
            if l.len() == 1 {
                assert(join_levels(m) =~= p.push(c));
            } else {
                assert(m.drop_last() =~= l.drop_last());
                assert(join_levels(m) =~= join_levels(l.drop_last()) + seq!['/'] + l.last().push(c));
                assert(join_levels(m) =~= p.push(c));
            }
        }
    }
}

/// A filter without wildcard levels matches exactly the topic that is equal to it.
pub proof fn lemma_plain_filter_matches_only_itself(filter: Seq<char>, topic: Seq<char>)
    requires
        forall|i: int|
            0 <= i < topic_levels(filter).len() ==> #[trigger] topic_levels(filter)[i] != seq!['#']
                && topic_levels(filter)[i] != seq!['+'],
    ensures
        topic_matches(filter, topic) <==> filter == topic,
{
    lemma_plain_levels_match(topic_levels(filter), topic_levels(topic));
    lemma_join_topic_levels(filter);
    lemma_join_topic_levels(topic);
}

} // verus!

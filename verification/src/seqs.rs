//! Ways to go through a sequence from the left.
use vstd::prelude::*;

verus! {

/// What `f` makes of each of the first `n` items, up to the first error.
pub open spec fn collected<A, B, E>(
    s: Seq<A>,
    f: spec_fn(int, A) -> Result<B, E>,
    n: nat,
) -> Result<Seq<B>, E>
    decreases n,
{
    if n == 0 {
        Ok(Seq::empty())
    } else {
        match collected(s, f, (n - 1) as nat) {
            Err(e) => Err(e),
            Ok(done) => match f(n - 1, s[n - 1]) {
                Err(e) => Err(e),
                Ok(b) => Ok(done.push(b)),
            },
        }
    }
}

/// An error among the first items is the error of all.
pub proof fn collected_stops<A, B, E>(
    s: Seq<A>,
    f: spec_fn(int, A) -> Result<B, E>,
    n: nat,
    m: nat,
)
    requires
        n <= m,
        collected(s, f, n) is Err,
    ensures
        collected(s, f, m) == collected(s, f, n),
    decreases m,
{
    if n < m {
        collected_stops(s, f, n, (m - 1) as nat);
    }
}

/// As many results as items.
pub proof fn collected_len<A, B, E>(s: Seq<A>, f: spec_fn(int, A) -> Result<B, E>, n: nat)
    ensures
        collected(s, f, n) matches Ok(v) ==> v.len() == n,
    decreases n,
{
    if n > 0 {
        collected_len(s, f, (n - 1) as nat);
    }
}

/// Each result is what `f` makes of its item.
pub proof fn collected_at<A, B, E>(s: Seq<A>, f: spec_fn(int, A) -> Result<B, E>, n: nat, i: int)
    requires
        0 <= i < n,
        collected(s, f, n) is Ok,
    ensures
        collected(s, f, n)->Ok_0.len() == n,
        f(i, s[i]) == Ok::<B, E>(collected(s, f, n)->Ok_0[i]),
    decreases n,
{
    collected_len(s, f, n);
    if i < n - 1 {
        collected_at(s, f, (n - 1) as nat, i);
    } else {
        collected_len(s, f, (n - 1) as nat);
    }
}

/// What `f` makes of each of the first `n` items, in a row.
pub open spec fn gathered<A, B>(s: Seq<A>, f: spec_fn(A) -> Seq<B>, n: nat) -> Seq<B>
    decreases n,
{
    if n == 0 {
        Seq::empty()
    } else {
        gathered(s, f, (n - 1) as nat) + f(s[n - 1])
    }
}

/// What `f` makes of the first items does not depend on those that follow.
pub proof fn gathered_first<A, B>(s: Seq<A>, t: Seq<A>, f: spec_fn(A) -> Seq<B>, n: nat)
    requires
        n <= s.len(),
        n <= t.len(),
        s.take(n as int) == t.take(n as int),
    ensures
        gathered(s, f, n) == gathered(t, f, n),
    decreases n,
{
    if n > 0 {
        assert(s[n - 1] == s.take(n as int)[n - 1]);
        assert(t[n - 1] == t.take(n as int)[n - 1]);
        assert(s.take(n - 1) =~= s.take(n as int).take(n - 1));
        assert(t.take(n - 1) =~= t.take(n as int).take(n - 1));
        gathered_first(s, t, f, (n - 1) as nat);
    }
}

/// One item more adds what `f` makes of it.
pub proof fn gathered_push<A, B>(s: Seq<A>, x: A, f: spec_fn(A) -> Seq<B>)
    ensures
        gathered(s.push(x), f, s.push(x).len()) == gathered(s, f, s.len()) + f(x),
{
    let t = s.push(x);
    assert(s.take(s.len() as int) =~= t.take(s.len() as int));
    gathered_first(s, t, f, s.len());
}

/// What `f` makes of two sequences in a row.
pub proof fn gathered_append<A, B>(s: Seq<A>, t: Seq<A>, f: spec_fn(A) -> Seq<B>)
    ensures
        gathered(s + t, f, (s + t).len()) == gathered(s, f, s.len()) + gathered(t, f, t.len()),
    decreases t.len(),
{
    if t.len() == 0 {
        assert(s + t =~= s);
        assert(gathered(s, f, s.len()) + Seq::<B>::empty() =~= gathered(s, f, s.len()));
    } else {
        let u = t.drop_last();
        let x = t.last();
        gathered_append(s, u, f);
        gathered_push(s + u, x, f);
        gathered_push(u, x, f);
        assert((s + u).push(x) =~= s + t);
        assert(u.push(x) =~= t);
        assert(gathered(s, f, s.len()) + gathered(u, f, u.len()) + f(x) =~= gathered(
            s,
            f,
            s.len(),
        ) + (gathered(u, f, u.len()) + f(x)));
    }
}

/// Something is among what `f` makes of the first `n` items exactly where it is
/// among what `f` makes of one of them.
pub proof fn gathered_contains<A, B>(s: Seq<A>, f: spec_fn(A) -> Seq<B>, n: nat, x: B)
    requires
        n <= s.len(),
    ensures
        gathered(s, f, n).contains(x) <==> exists|i: int|
            0 <= i < n && (#[trigger] f(s[i])).contains(x),
    decreases n,
{
    if n > 0 {
        gathered_contains(s, f, (n - 1) as nat, x);
        let before = gathered(s, f, (n - 1) as nat);
        let last = f(s[n - 1]);
        let all = gathered(s, f, n);
        if all.contains(x) {
            let k = choose|k: int| 0 <= k < all.len() && all[k] == x;
            if k < before.len() {
                assert(before[k] == x);
            } else {
                assert(last[k - before.len()] == x);
            }
        }
        if before.contains(x) {
            let k = choose|k: int| 0 <= k < before.len() && before[k] == x;
            assert(all[k] == x);
        }
        if last.contains(x) {
            let k = choose|k: int| 0 <= k < last.len() && last[k] == x;
            assert(all[before.len() + k] == x);
        }
    }
}

/// How many of the first `n` items are as `p` says.
pub open spec fn counted<A>(s: Seq<A>, p: spec_fn(A) -> bool, n: nat) -> nat
    decreases n,
{
    if n == 0 {
        0
    } else {
        counted(s, p, (n - 1) as nat) + (if p(s[n - 1]) {
            1nat
        } else {
            0nat
        })
    }
}

/// What a state has become after the first `n` items.
pub open spec fn walked<A, S>(s: Seq<A>, f: spec_fn(S, A) -> S, start: S, n: nat) -> S
    decreases n,
{
    if n == 0 {
        start
    } else {
        f(walked(s, f, start, (n - 1) as nat), s[n - 1])
    }
}

/// What a state becomes after the first items does not depend on those that
/// follow.
pub proof fn walked_first<A, S>(s: Seq<A>, t: Seq<A>, f: spec_fn(S, A) -> S, start: S, n: nat)
    requires
        n <= s.len(),
        n <= t.len(),
        forall|k: int| 0 <= k < n ==> s[k] == t[k],
    ensures
        walked(s, f, start, n) == walked(t, f, start, n),
    decreases n,
{
    if n > 0 {
        walked_first(s, t, f, start, (n - 1) as nat);
        assert(s[n - 1] == t[n - 1]);
    }
}

/// What a state has become after two sequences in a row.
pub proof fn walked_append<A, S>(s: Seq<A>, t: Seq<A>, f: spec_fn(S, A) -> S, start: S)
    ensures
        walked(s + t, f, start, (s + t).len()) == walked(
            t,
            f,
            walked(s, f, start, s.len()),
            t.len(),
        ),
    decreases t.len(),
{
    if t.len() == 0 {
        assert(s + t =~= s);
    } else {
        let u = t.drop_last();
        walked_append(s, u, f, start);
        walked_first(s + t, s + u, f, start, (s + u).len());
        walked_first(t, u, f, walked(s, f, start, s.len()), u.len());
        assert((s + t).last() == t.last());
    }
}

/// What a state has become after the first `n` items, up to the first error.
pub open spec fn folded<A, S, E>(
    s: Seq<A>,
    f: spec_fn(S, A) -> Result<S, E>,
    start: S,
    n: nat,
) -> Result<S, E>
    decreases n,
{
    if n == 0 {
        Ok(start)
    } else {
        match folded(s, f, start, (n - 1) as nat) {
            Err(e) => Err(e),
            Ok(state) => f(state, s[n - 1]),
        }
    }
}

/// An error among the first items is the error of all.
pub proof fn folded_stops<A, S, E>(
    s: Seq<A>,
    f: spec_fn(S, A) -> Result<S, E>,
    start: S,
    n: nat,
    m: nat,
)
    requires
        n <= m,
        folded(s, f, start, n) is Err,
    ensures
        folded(s, f, start, m) == folded(s, f, start, n),
    decreases m,
{
    if n < m {
        folded_stops(s, f, start, n, (m - 1) as nat);
    }
}

} // verus!

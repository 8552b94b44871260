//! Bookkeeping for the element ids that mounted label, description and error parts register with
//! field metadata.

use vstd::prelude::*;

use crate::text::text_views;

verus! {

/// Which kind of field part registered an id.
#[derive(Clone, Copy, Debug, PartialEq, Eq, Structural)]
pub enum RegisteredIdKind {
    /// A label; its id reaches the control through `aria-labelledby`.
    Label,
    /// A description; its id reaches the control through `aria-describedby`.
    Description,
    /// An error; its id reaches the control through `aria-errormessage` and `aria-describedby`.
    Error,
}

/// One registered part id, with the token that releases it.
#[derive(Clone, Debug)]
pub struct RegisteredId {
    /// The token handed out when the id was registered.
    pub token: u64,
    /// The kind of part that registered the id.
    pub kind: RegisteredIdKind,
    /// The part's element id.
    pub id: String,
}

/// The mathematical value of a [`RegisteredId`].
pub struct RegisteredIdView {
    /// The token handed out when the id was registered.
    pub token: u64,
    /// The kind of part that registered the id.
    pub kind: RegisteredIdKind,
    /// The part's element id.
    pub id: Seq<char>,
}

impl View for RegisteredId {
    type V = RegisteredIdView;

    open spec fn view(&self) -> RegisteredIdView {
        RegisteredIdView { token: self.token, kind: self.kind, id: self.id@ }
    }
}

/// The ids currently registered with one field, in registration order.
#[derive(Debug)]
pub struct RegisteredIds {
    next_token: u64,
    entries: Vec<RegisteredId>,
}

/// The mathematical value of a [`RegisteredIds`].
pub struct RegisteredIdsView {
    /// The token the next registration receives.
    pub next_token: u64,
    /// The registered ids, in registration order.
    pub entries: Seq<RegisteredIdView>,
}

/// The views of a list of registered ids.
pub open spec fn entry_views(entries: Seq<RegisteredId>) -> Seq<RegisteredIdView> {
    entries.map_values(|e: RegisteredId| e@)
}

/// The ids of one kind, in registration order.
pub open spec fn ids_of(entries: Seq<RegisteredIdView>, kind: RegisteredIdKind) -> Seq<Seq<char>>
    decreases entries.len(),
{
    if entries.len() == 0 {
        Seq::empty()
    } else if entries.last().kind == kind {
        ids_of(entries.drop_last(), kind).push(entries.last().id)
    } else {
        ids_of(entries.drop_last(), kind)
    }
}

/// The entries whose token is not `token`, in their order.
pub open spec fn without_token(entries: Seq<RegisteredIdView>, token: u64) -> Seq<RegisteredIdView>
    decreases entries.len(),
{
    if entries.len() == 0 {
        Seq::empty()
    } else if entries.last().token == token {
        without_token(entries.drop_last(), token)
    } else {
        without_token(entries.drop_last(), token).push(entries.last())
    }
}

impl RegisteredIdsView {
    /// Tokens increase in registration order and stay below the next token to hand out.
    pub open spec fn wf(self) -> bool {
        &&& forall|i: int| 0 <= i < self.entries.len() ==> #[trigger] self.entries[i].token < self.next_token
        &&& forall|i: int, j: int|
            0 <= i < j < self.entries.len() ==> #[trigger] self.entries[i].token < #[trigger] self.entries[j].token
    }

    /// The state after registering `id` for a part of `kind`.
    pub open spec fn registered(self, kind: RegisteredIdKind, id: Seq<char>) -> RegisteredIdsView {
        RegisteredIdsView {
            next_token: (self.next_token + 1) as u64,
            entries: self.entries.push(RegisteredIdView { token: self.next_token, kind, id }),
        }
    }

    /// The state after releasing the registration with `token`.
    pub open spec fn released(self, token: u64) -> RegisteredIdsView {
        RegisteredIdsView { next_token: self.next_token, entries: without_token(self.entries, token) }
    }
}

impl View for RegisteredIds {
    type V = RegisteredIdsView;

    closed spec fn view(&self) -> RegisteredIdsView {
        RegisteredIdsView { next_token: self.next_token, entries: entry_views(self.entries@) }
    }
}

proof fn lemma_without_token_keeps_order(entries: Seq<RegisteredIdView>, token: u64)
    ensures
        forall|i: int| 0 <= i < without_token(entries, token).len() ==> exists|j: int|
            0 <= j < entries.len() && #[trigger] without_token(entries, token)[i] == entries[j],
        forall|i: int, k: int| 0 <= i < k < without_token(entries, token).len() ==> exists|a: int, b: int|
            0 <= a < b < entries.len() && #[trigger] without_token(entries, token)[i] == entries[a]
                && #[trigger] without_token(entries, token)[k] == entries[b],
    decreases entries.len(),
{
    if entries.len() > 0 {
        lemma_without_token_keeps_order(entries.drop_last(), token);
        let prev = without_token(entries.drop_last(), token);
        let cur = without_token(entries, token);
        assert forall|i: int| 0 <= i < cur.len() implies exists|j: int|
            0 <= j < entries.len() && #[trigger] cur[i] == entries[j] by {
            if i < prev.len() {
                assert(cur[i] == prev[i]);
                let j = choose|j: int| 0 <= j < entries.drop_last().len() && #[trigger] prev[i] == entries.drop_last()[j];
                assert(entries[j] == entries.drop_last()[j]);
            } else {
                assert(cur[i] == entries[entries.len() - 1]);
            }
        }
        assert forall|i: int, k: int| 0 <= i < k < cur.len() implies exists|a: int, b: int|
            0 <= a < b < entries.len() && #[trigger] cur[i] == entries[a] && #[trigger] cur[k] == entries[b] by {
            if k < prev.len() {
                assert(cur[i] == prev[i] && cur[k] == prev[k]);
                let (a, b) = choose|a: int, b: int|
                    0 <= a < b < entries.drop_last().len() && #[trigger] prev[i] == entries.drop_last()[a]
                        && #[trigger] prev[k] == entries.drop_last()[b];
                assert(entries[a] == entries.drop_last()[a] && entries[b] == entries.drop_last()[b]);
            } else {
                assert(cur[i] == prev[i]);
                assert(cur[k] == entries[entries.len() - 1]);
                let j = choose|j: int| 0 <= j < entries.drop_last().len() && #[trigger] prev[i] == entries.drop_last()[j];
                assert(entries[j] == entries.drop_last()[j]);
            }
        }
    }
}

/// Releasing a token keeps the registry well formed.
proof fn lemma_released_wf(s: RegisteredIdsView, token: u64)
    requires
        s.wf(),
    ensures
        s.released(token).wf(),
{
    lemma_without_token_keeps_order(s.entries, token);
    let kept = without_token(s.entries, token);
    assert forall|i: int| 0 <= i < kept.len() implies #[trigger] kept[i].token < s.next_token by {
        let j = choose|j: int| 0 <= j < s.entries.len() && #[trigger] kept[i] == s.entries[j];
    }
    assert forall|i: int, k: int| 0 <= i < k < kept.len() implies #[trigger] kept[i].token < #[trigger] kept[k].token by {
        let (a, b) = choose|a: int, b: int|
            0 <= a < b < s.entries.len() && #[trigger] kept[i] == s.entries[a] && #[trigger] kept[k] == s.entries[b];
    }
}

/// Releasing a token no entry carries changes nothing.
proof fn lemma_without_absent_token(entries: Seq<RegisteredIdView>, token: u64)
    requires
        forall|i: int| 0 <= i < entries.len() ==> #[trigger] entries[i].token != token,
    ensures
        without_token(entries, token) == entries,
    decreases entries.len(),
{
    if entries.len() > 0 {
        lemma_without_absent_token(entries.drop_last(), token);
        assert(entries.drop_last().push(entries.last()) =~= entries);
    }
}

/// No entry left after releasing a token carries it.
proof fn lemma_without_token_removes_all(entries: Seq<RegisteredIdView>, token: u64)
    ensures
        forall|i: int| 0 <= i < without_token(entries, token).len() ==> #[trigger] without_token(entries, token)[i].token != token,
    decreases entries.len(),
{
    if entries.len() > 0 {
        lemma_without_token_removes_all(entries.drop_last(), token);
    }
}

/// Releasing a registration undoes it: registering an id and releasing the token it was handed
/// leaves exactly the registrations that were there before.
pub proof fn law_release_undoes_register(s: RegisteredIdsView, kind: RegisteredIdKind, id: Seq<char>)
    requires
        s.wf(),
        s.next_token < u64::MAX,
    ensures
        s.registered(kind, id).released(s.next_token).entries == s.entries,
{
    let grown = s.registered(kind, id).entries;
    assert(grown.drop_last() =~= s.entries);
    assert forall|i: int| 0 <= i < s.entries.len() implies #[trigger] s.entries[i].token != s.next_token by {
    }
    lemma_without_absent_token(s.entries, s.next_token);
}

/// Releasing the same registration twice has the effect of releasing it once.
pub proof fn law_release_is_idempotent(s: RegisteredIdsView, token: u64)
    ensures
        s.released(token).released(token) == s.released(token),
{
    lemma_without_token_removes_all(s.entries, token);
    lemma_without_absent_token(without_token(s.entries, token), token);
}

/// Registered ids are listed in registration order: a new registration is listed last among the
/// ids of its kind, and the lists of the other kinds do not change.
pub proof fn law_registration_order(s: RegisteredIdsView, kind: RegisteredIdKind, id: Seq<char>, other: RegisteredIdKind)
    ensures
        ids_of(s.registered(kind, id).entries, kind) == ids_of(s.entries, kind).push(id),
        other != kind ==> ids_of(s.registered(kind, id).entries, other) == ids_of(s.entries, other),
{
    let grown = s.registered(kind, id).entries;
    assert(grown.drop_last() =~= s.entries);
}

/// Of two registrations, releasing the older leaves the newer listed where it was, and the ids of
/// every other kind unchanged; releasing the newer then leaves exactly the ids listed before both.
pub proof fn law_release_one_of_two(
    s: RegisteredIdsView,
    kind: RegisteredIdKind,
    first: Seq<char>,
    second: Seq<char>,
    other: RegisteredIdKind,
)
    requires
        s.wf(),
        s.next_token < u64::MAX - 1,
    ensures
        ({
            let both = s.registered(kind, first).registered(kind, second);
            let after_first = both.released(s.next_token);
            let after_both = after_first.released((s.next_token + 1) as u64);
            &&& ids_of(both.entries, kind) == ids_of(s.entries, kind).push(first).push(second)
            &&& ids_of(after_first.entries, kind) == ids_of(s.entries, kind).push(second)
            &&& (other != kind ==> ids_of(after_first.entries, other) == ids_of(s.entries, other))
            &&& after_both.entries == s.entries
        }),
{
    let one = s.registered(kind, first);
    let both = one.registered(kind, second);
    let a = RegisteredIdView { token: s.next_token, kind, id: first };
    let b = RegisteredIdView { token: (s.next_token + 1) as u64, kind, id: second };
    assert(one.entries == s.entries.push(a));
    assert(both.entries == s.entries.push(a).push(b));
    law_registration_order(s, kind, first, other);
    law_registration_order(one, kind, second, other);
    assert forall|i: int| 0 <= i < s.entries.len() implies #[trigger] s.entries[i].token != s.next_token by {
    }
    lemma_without_absent_token(s.entries, s.next_token);
    let without_a = without_token(both.entries, s.next_token);
    assert(both.entries.drop_last() =~= s.entries.push(a));
    assert(s.entries.push(a).drop_last() =~= s.entries);
    assert(without_token(s.entries.push(a), s.next_token) == without_token(s.entries, s.next_token));
    assert(without_a == s.entries.push(b));
    assert(s.entries.push(b).last() == b);
    assert(s.entries.push(b).drop_last() =~= s.entries);
    assert(ids_of(s.entries.push(b), kind) == ids_of(s.entries, kind).push(second));
    assert(ids_of(s.entries.push(b), other) == if other == kind {
        ids_of(s.entries, other).push(second)
    } else {
        ids_of(s.entries, other)
    });
    assert forall|i: int| 0 <= i < s.entries.len() implies #[trigger] s.entries[i].token != b.token by {
    }
    assert(s.entries.push(b).drop_last() =~= s.entries);
    lemma_without_absent_token(s.entries, b.token);
}

/// Releasing never changes the token the next registration receives, so a token is never handed
/// out twice, and no registration with the released token remains.
pub proof fn law_release_keeps_token_counter(s: RegisteredIdsView, token: u64)
    ensures
        s.released(token).next_token == s.next_token,
        forall|i: int| 0 <= i < s.released(token).entries.len() ==> #[trigger] s.released(token).entries[i].token != token,
{
    lemma_without_token_removes_all(s.entries, token);
}

impl RegisteredIds {
    #[verifier::type_invariant]
    spec fn inv(self) -> bool {
        self@.wf()
    }

    /// Creates an empty registry.
    pub fn new() -> (r: Self)
        ensures
            r@.next_token == 0,
            r@.entries.len() == 0,
    {
        RegisteredIds { next_token: 0, entries: Vec::new() }
    }

    /// Every registry is well formed: tokens increase in registration order and stay below the
    /// next token to hand out. Callers use this to apply the registry's laws to a registry they hold.
    pub fn well_formed(&self)
        ensures
            self@.wf(),
    {
        proof {
            use_type_invariant(self);
        }
    }

    /// Whether another id can be registered: tokens are never reused.
    pub fn has_capacity(&self) -> (r: bool)
        ensures
            r == (self@.next_token < u64::MAX),
    {
        self.next_token < u64::MAX
    }

    /// Registers `id` for a part of `kind` and returns the token that releases it.
    pub fn insert(&mut self, kind: RegisteredIdKind, id: String) -> (token: u64)
        requires
            old(self)@.next_token < u64::MAX,
        ensures
            token == old(self)@.next_token,
            final(self)@ == old(self)@.registered(kind, id@),
    {
        proof {
            use_type_invariant(&*self);
        }
        let token = self.next_token;
        let mut entries: Vec<RegisteredId> = Vec::new();
        std::mem::swap(&mut entries, &mut self.entries);
        self.next_token = token + 1;
        entries.push(RegisteredId { token, kind, id });
        proof {
            assert(entry_views(entries@) =~= entry_views(old(self).entries@).push(
                RegisteredIdView { token, kind, id: entries@.last().id@ },
            ));
        }
        self.entries = entries;
        token
    }

    /// Returns the ids of one kind in registration order, which is the order ARIA id references
    /// are rendered in.
    pub fn ids(&self, kind: RegisteredIdKind) -> (r: Vec<String>)
        ensures
            text_views(r@) == ids_of(self@.entries, kind),
    {
        let mut out: Vec<String> = Vec::new();
        let mut i: usize = 0;
        let ghost all = entry_views(self.entries@);
        while i < self.entries.len()
            invariant
                i <= self.entries@.len(),
                all == entry_views(self.entries@),
                text_views(out@) =~= ids_of(all.take(i as int), kind),
            decreases self.entries@.len() - i,
        {
            let entry = &self.entries[i];
            proof {
                assert(all.take(i + 1).drop_last() =~= all.take(i as int));
                assert(all.take(i + 1).last() == entry@);
            }
            if entry.kind == kind {
                out.push(entry.id.clone());
            }
            i = i + 1;
        }
        proof {
            assert(all.take(i as int) =~= all);
        }
        out
    }

    /// Releases the registration that `token` was handed out for; other registrations keep their
    /// place.
    pub fn remove(&mut self, token: u64)
        ensures
            final(self)@ == old(self)@.released(token),
    {
        proof {
            use_type_invariant(&*self);
        }
        let ghost start = self@;
        let mut pending: Vec<RegisteredId> = Vec::new();
        std::mem::swap(&mut pending, &mut self.entries);
        let ghost all = entry_views(pending@);
        let mut kept: Vec<RegisteredId> = Vec::new();
        let ghost mut done: int = 0;
        while pending.len() > 0
            invariant
                0 <= done <= all.len(),
                entry_views(pending@) =~= all.skip(done),
                entry_views(kept@) =~= without_token(all.take(done), token),
            decreases pending@.len(),
        {
            let ghost before = pending@;
            let entry = pending.remove(0);
            proof {
                assert(entry_views(before).len() == before.len());
                assert(done < all.len());
                assert(all.skip(done)[0] == entry@);
                assert(all[done] == entry@);
                assert(all.take(done + 1).drop_last() =~= all.take(done));
                assert forall|k: int| 0 <= k < pending@.len() implies #[trigger] entry_views(pending@)[k]
                    == all.skip(done + 1)[k] by {
                    assert(pending@[k] == before[k + 1]);
                    assert(entry_views(before)[k + 1] == all.skip(done)[k + 1]);
                }
            }
            if entry.token != token {
                kept.push(entry);
            }
            proof {
                done = done + 1;
            }
        }
        proof {
            assert(all.take(done) =~= all);
            assert(all =~= start.entries);
            lemma_released_wf(start, token);
        }
        self.entries = kept;
    }
}

impl Default for RegisteredIds {
    fn default() -> (r: Self)
        ensures
            r@.next_token == 0,
            r@.entries.len() == 0,
    {
        RegisteredIds::new()
    }
}

} // verus!

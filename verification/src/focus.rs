//! The field-scoped slot through which one widget exposes its focus behaviour.

use vstd::prelude::*;

verus! {

/// The state of a focus request slot: the callback of the current registration, if any, and the
/// token the next registration receives.
///
/// The slot holds one registration at a time. A newer registration replaces an older one, and
/// releasing a registration clears the slot only while that registration is still the current one.
#[derive(Debug)]
pub struct FocusRequestState<C> {
    next_token: u64,
    current: Option<(u64, C)>,
}

/// The mathematical value of a [`FocusRequestState`].
pub struct FocusRequestStateView<C> {
    /// The token the next registration receives.
    pub next_token: u64,
    /// The current registration's token and callback.
    pub current: Option<(u64, C)>,
}

impl<C> FocusRequestStateView<C> {
    /// The current registration is older than the next token to hand out.
    pub open spec fn wf(self) -> bool {
        self.current matches Some((token, _)) ==> token < self.next_token
    }

    /// The callback of the current registration, if any.
    pub open spec fn current_callback(self) -> Option<C> {
        match self.current {
            Some((_, callback)) => Some(callback),
            None => None,
        }
    }

    /// The state after registering `callback`.
    pub open spec fn registered(self, callback: C) -> FocusRequestStateView<C> {
        FocusRequestStateView {
            next_token: (self.next_token + 1) as u64,
            current: Some((self.next_token, callback)),
        }
    }

    /// The state after releasing the registration with `token`.
    pub open spec fn released(self, token: u64) -> FocusRequestStateView<C> {
        match self.current {
            Some((current, _)) => if current == token {
                FocusRequestStateView { next_token: self.next_token, current: None }
            } else {
                self
            },
            None => self,
        }
    }
}

impl<C> View for FocusRequestState<C> {
    type V = FocusRequestStateView<C>;

    closed spec fn view(&self) -> FocusRequestStateView<C> {
        FocusRequestStateView { next_token: self.next_token, current: self.current }
    }
}

impl<C> FocusRequestState<C> {
    #[verifier::type_invariant]
    spec fn inv(self) -> bool {
        self@.wf()
    }

    /// Creates an empty slot.
    pub fn new() -> (r: Self)
        ensures
            r@.next_token == 0,
            r@.current is None,
    {
        FocusRequestState { next_token: 0, current: None }
    }

    /// Whether another registration can be made: tokens are never reused.
    pub fn has_capacity(&self) -> (r: bool)
        ensures
            r == (self@.next_token < u64::MAX),
    {
        self.next_token < u64::MAX
    }

    /// Registers the callback a focus request reaches, replacing any current registration, and
    /// returns the token that releases it.
    pub fn register(&mut self, callback: C) -> (token: u64)
        requires
            old(self)@.next_token < u64::MAX,
        ensures
            token == old(self)@.next_token,
            final(self)@ == old(self)@.registered(callback),
    {
        proof {
            use_type_invariant(&*self);
        }
        let token = self.next_token;
        self.next_token = token + 1;
        self.current = Some((token, callback));
        token
    }

    /// The callback a focus request reaches: that of the current registration, or none.
    pub fn current_callback(&self) -> (r: Option<&C>)
        ensures
            r is Some <==> self@.current is Some,
            r matches Some(callback) ==> self@.current_callback() == Some(*callback),
    {
        match &self.current {
            Some((_, callback)) => Some(callback),
            None => None,
        }
    }

    /// Releases the registration with `token`, without disturbing a newer registration.
    pub fn release(&mut self, token: u64)
        ensures
            final(self)@ == old(self)@.released(token),
            final(self)@.next_token == old(self)@.next_token,
            final(self)@.current == (match old(self)@.current {
                Some((current, callback)) => if current == token {
                    None
                } else {
                    Some((current, callback))
                },
                None => None,
            }),
    {
        let matches = match &self.current {
            Some((current, _)) => *current == token,
            None => false,
        };
        if matches {
            self.current = None;
        }
    }
}

/// A focus request reaches the callback registered last.
pub proof fn law_request_reaches_latest_registration<C>(state: FocusRequestStateView<C>, callback: C)
    ensures
        state.registered(callback).current == Some((state.next_token, callback)),
{
}

/// Releasing an older registration does not disturb a newer one in the same slot.
pub proof fn law_release_keeps_newer_registration<C>(state: FocusRequestStateView<C>, older: C, newer: C)
    requires
        state.next_token < u64::MAX - 1,
    ensures
        state.registered(older).registered(newer).released(state.next_token).current
            == Some(((state.next_token + 1) as u64, newer)),
{
}

/// Releasing the current registration empties the slot, so a request reaches no widget.
pub proof fn law_release_current_empties_slot<C>(state: FocusRequestStateView<C>, callback: C)
    requires
        state.next_token < u64::MAX,
    ensures
        state.registered(callback).released(state.next_token).current is None,
{
}

/// Releasing never changes the token the next registration receives, so tokens are never handed
/// out twice, and releasing clears the slot only for the token of the current registration.
pub proof fn law_release_keeps_token_counter<C>(state: FocusRequestStateView<C>, token: u64)
    ensures
        state.released(token).next_token == state.next_token,
        state.released(token).current is None <==> (state.current is None || (state.current matches Some((current, _)) && current == token)),
        state.released(token).current is Some ==> state.released(token).current == state.current,
{
}

/// A registration receives a token no earlier registration of the slot received: after any release,
/// the next registration's token is above the token of every registration made before it.
pub proof fn law_tokens_are_never_reused<C>(state: FocusRequestStateView<C>, first: C, released: u64, second: C)
    requires
        state.next_token < u64::MAX - 1,
    ensures
        state.registered(first).released(released).registered(second).current matches Some((token, _)) && token > state.next_token,
{
}

/// Releasing a stale registration never disturbs a later one: register `a`, register `b`, release
/// `b`, register `c`, then release `a`; a request still reaches `c`.
pub proof fn law_stale_release_keeps_later_registration<C>(state: FocusRequestStateView<C>, a: C, b: C, c: C)
    requires
        state.next_token < u64::MAX - 2,
    ensures
        state.registered(a).registered(b).released((state.next_token + 1) as u64).registered(c).released(
            state.next_token,
        ).current_callback() == Some(c),
{
}

} // verus!

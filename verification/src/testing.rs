//! The state recorded by widget-registry conformance probes, and the conditions each probe's
//! assertion requires of it.
//!
//! Registry tests wire probes into their real components, drive the component through its normal
//! interaction path, then check the recorded state. The probes do not prescribe a rendered element
//! or DOM event, because those details belong to each widget.
//!
//! Each `assert_*` function states its condition as a precondition; the matching predicate
//! (`commit_before_submit`, `focus_exit_count`, and so on) computes whether the condition holds,
//! so a test harness can check it and report a failure before asserting.

use vstd::prelude::*;
use vstd::std_specs::cmp::PartialEqSpec;

use crate::binding::ChangeOrigin;
use crate::meta::FieldMeta;
use crate::registry::{ids_of, RegisteredIdKind};
use crate::text::{id_reference_list, join_ids, text_options_equal, text_option_view, text_views};

verus! {

/// One event a [`CommitOrderProbe`] observes.
#[derive(Clone, Copy, Debug, PartialEq, Eq, Structural)]
pub enum CommitOrderEvent {
    /// The widget committed.
    Commit,
    /// The containing submit handler ran.
    Submit,
}

/// Records the relative order of a widget commit and its containing submit handler.
#[derive(Clone, Debug)]
pub struct CommitOrderProbe {
    events: Vec<CommitOrderEvent>,
}

impl View for CommitOrderProbe {
    type V = Seq<CommitOrderEvent>;

    closed spec fn view(&self) -> Seq<CommitOrderEvent> {
        self.events@
    }
}

/// Exactly one commit, then exactly one submit.
pub open spec fn commit_then_submit() -> Seq<CommitOrderEvent> {
    seq![CommitOrderEvent::Commit, CommitOrderEvent::Submit]
}

impl CommitOrderProbe {
    /// Creates an empty commit-order probe.
    pub fn new() -> (r: Self)
        ensures
            r@.len() == 0,
    {
        CommitOrderProbe { events: Vec::new() }
    }

    /// Records that the widget committed.
    pub fn record_commit(&mut self)
        ensures
            final(self)@ == old(self)@.push(CommitOrderEvent::Commit),
    {
        self.events.push(CommitOrderEvent::Commit);
    }

    /// Records that the containing submit handler ran.
    pub fn record_submit(&mut self)
        ensures
            final(self)@ == old(self)@.push(CommitOrderEvent::Submit),
    {
        self.events.push(CommitOrderEvent::Submit);
    }

    /// Whether exactly one commit was observed, before exactly one submit.
    pub fn commit_before_submit(&self) -> (r: bool)
        ensures
            r == (self@ == commit_then_submit()),
    {
        let r = self.events.len() == 2 && self.events[0] == CommitOrderEvent::Commit
            && self.events[1] == CommitOrderEvent::Submit;
        proof {
            if r {
                assert(self@ =~= commit_then_submit());
            }
        }
        r
    }

    /// Asserts that one commit was synchronously observed before one submit.
    pub fn assert_commit_before_submit(&self)
        requires
            self@ == commit_then_submit(),
    {
    }
}

/// Counts reports that focus left a widget's complete logical focus scope.
#[derive(Clone, Debug)]
pub struct FocusExitProbe {
    focus_exits: usize,
}

impl View for FocusExitProbe {
    type V = nat;

    closed spec fn view(&self) -> nat {
        self.focus_exits as nat
    }
}

impl FocusExitProbe {
    /// Creates an empty Focus Exit probe.
    pub fn new() -> (r: Self)
        ensures
            r@ == 0,
    {
        FocusExitProbe { focus_exits: 0 }
    }

    /// Records one Focus Exit report.
    pub fn record_focus_exit(&mut self)
        requires
            old(self)@ < usize::MAX,
        ensures
            final(self)@ == old(self)@ + 1,
    {
        self.focus_exits = self.focus_exits + 1;
    }

    /// The number of Focus Exit reports observed.
    pub fn focus_exit_count(&self) -> (r: usize)
        ensures
            r == self@,
    {
        self.focus_exits
    }

    /// Asserts that Focus Exit was reported exactly once.
    pub fn assert_focus_exit_once(&self)
        requires
            self@ == 1,
    {
    }

    /// Asserts that Focus Exit was not reported, as after internal focus movement or a Commit that
    /// leaves focus inside the widget.
    pub fn assert_no_focus_exit(&self)
        requires
            self@ == 0,
    {
    }
}

/// One event a [`FocusExitOrderProbe`] observes.
#[derive(Clone, Copy, Debug, PartialEq, Eq, Structural)]
pub enum FocusExitOrderEvent {
    /// The binding was written.
    Write,
    /// The binding committed.
    Commit,
    /// The binding reported Focus Exit.
    FocusExit,
}

/// Records the relative order of binding writes, Commits, and Focus Exits.
#[derive(Clone, Debug)]
pub struct FocusExitOrderProbe {
    events: Vec<FocusExitOrderEvent>,
}

impl View for FocusExitOrderProbe {
    type V = Seq<FocusExitOrderEvent>;

    closed spec fn view(&self) -> Seq<FocusExitOrderEvent> {
        self.events@
    }
}

/// One Commit and nothing else.
pub open spec fn commit_alone() -> Seq<FocusExitOrderEvent> {
    seq![FocusExitOrderEvent::Commit]
}

/// One write, then one Commit, then one Focus Exit.
pub open spec fn write_commit_then_focus_exit() -> Seq<FocusExitOrderEvent> {
    seq![FocusExitOrderEvent::Write, FocusExitOrderEvent::Commit, FocusExitOrderEvent::FocusExit]
}

impl FocusExitOrderProbe {
    /// Creates an empty Focus Exit order probe.
    pub fn new() -> (r: Self)
        ensures
            r@.len() == 0,
    {
        FocusExitOrderProbe { events: Vec::new() }
    }

    /// Records one event.
    pub fn record(&mut self, event: FocusExitOrderEvent)
        ensures
            final(self)@ == old(self)@.push(event),
    {
        self.events.push(event);
    }

    /// Whether one Commit occurred without any write or Focus Exit.
    pub fn commit_without_focus_exit(&self) -> (r: bool)
        ensures
            r == (self@ == commit_alone()),
    {
        let r = self.events.len() == 1 && self.events[0] == FocusExitOrderEvent::Commit;
        proof {
            if r {
                assert(self@ =~= commit_alone());
            }
        }
        r
    }

    /// Whether one write and one Commit were observed before one Focus Exit.
    pub fn write_and_commit_before_focus_exit(&self) -> (r: bool)
        ensures
            r == (self@ == write_commit_then_focus_exit()),
    {
        let r = self.events.len() == 3 && self.events[0] == FocusExitOrderEvent::Write
            && self.events[1] == FocusExitOrderEvent::Commit && self.events[2]
            == FocusExitOrderEvent::FocusExit;
        proof {
            if r {
                assert(self@ =~= write_commit_then_focus_exit());
            }
        }
        r
    }

    /// Asserts that one Commit occurred without a Focus Exit.
    pub fn assert_commit_without_focus_exit(&self)
        requires
            self@ == commit_alone(),
    {
    }

    /// Asserts that one synchronous write and Commit were observed before one Focus Exit.
    pub fn assert_write_and_commit_before_focus_exit(&self)
        requires
            self@ == write_commit_then_focus_exit(),
    {
    }
}

/// Records values written through a binding together with their [`ChangeOrigin`].
#[derive(Clone, Debug)]
pub struct ChangeOriginProbe<T> {
    writes: Vec<(T, ChangeOrigin)>,
}

impl<T> View for ChangeOriginProbe<T> {
    type V = Seq<(T, ChangeOrigin)>;

    closed spec fn view(&self) -> Seq<(T, ChangeOrigin)> {
        self.writes@
    }
}

/// Two write records agree entry by entry: values under `==`, origins exactly.
pub open spec fn writes_agree<T: PartialEq>(observed: Seq<(T, ChangeOrigin)>, expected: Seq<(T, ChangeOrigin)>) -> bool {
    &&& observed.len() == expected.len()
    &&& forall|i: int| 0 <= i < observed.len() ==> {
        &&& (#[trigger] observed[i]).0.eq_spec(&expected[i].0)
        &&& observed[i].1 == expected[i].1
    }
}

impl<T> ChangeOriginProbe<T> {
    /// Creates an empty write probe.
    pub fn new() -> (r: Self)
        ensures
            r@.len() == 0,
    {
        ChangeOriginProbe { writes: Vec::new() }
    }

    /// Records one write.
    pub fn record(&mut self, value: T, origin: ChangeOrigin)
        ensures
            final(self)@ == old(self)@.push((value, origin)),
    {
        self.writes.push((value, origin));
    }

    /// Whether the observed writes are exactly `expected`, in order.
    pub fn writes_match(&self, expected: &[(T, ChangeOrigin)]) -> (r: bool)
        where
            T: PartialEq,
        ensures
            T::obeys_eq_spec() ==> r == writes_agree(self@, expected@),
    {
        if self.writes.len() != expected.len() {
            return false;
        }
        let mut i: usize = 0;
        while i < self.writes.len()
            invariant
                self.writes@.len() == expected@.len(),
                i <= self.writes@.len(),
                T::obeys_eq_spec() ==> forall|k: int| 0 <= k < i ==> {
                    &&& (#[trigger] self.writes@[k]).0.eq_spec(&expected@[k].0)
                    &&& self.writes@[k].1 == expected@[k].1
                },
            decreases self.writes@.len() - i,
        {
            let same_value = self.writes[i].0 == expected[i].0;
            let same_origin = self.writes[i].1 == expected[i].1;
            if !same_value || !same_origin {
                return false;
            }
            i = i + 1;
        }
        true
    }

    /// Asserts the complete ordered sequence of value and origin pairs.
    pub fn assert_writes(&self, expected: &[(T, ChangeOrigin)])
        where
            T: PartialEq,
        requires
            writes_agree(self@, expected@),
    {
    }
}

/// The independently overridable metadata flags required by the convention.
#[derive(Clone, Copy, Debug, PartialEq, Eq, Structural)]
pub struct OverridableMetaFlags {
    /// The resolved invalid state.
    pub invalid: bool,
    /// The resolved disabled state.
    pub disabled: bool,
    /// The resolved required state.
    pub required: bool,
}

impl OverridableMetaFlags {
    /// Creates one observed or expected set of metadata flags, with `required` left false.
    pub fn new(invalid: bool, disabled: bool) -> (r: Self)
        ensures
            r == (OverridableMetaFlags { invalid, disabled, required: false }),
    {
        OverridableMetaFlags { invalid, disabled, required: false }
    }

    /// Returns these flags with the resolved required state replaced.
    #[must_use]
    pub fn with_required(self, required: bool) -> (r: Self)
        ensures
            r == (OverridableMetaFlags { required, ..self }),
    {
        OverridableMetaFlags { required, ..self }
    }
}

/// Asserts the flags observed after applying explicit per-flag props: each explicit flag must
/// override only its corresponding metadata flag.
pub fn assert_meta_flag_precedence(observed: OverridableMetaFlags, expected: OverridableMetaFlags)
    requires
        observed == expected,
{
}

/// Counts focus callbacks reached through a widget's resolved focus request slot.
#[derive(Clone, Debug)]
pub struct FocusRoundTripProbe {
    focus_calls: usize,
}

impl View for FocusRoundTripProbe {
    type V = nat;

    closed spec fn view(&self) -> nat {
        self.focus_calls as nat
    }
}

impl FocusRoundTripProbe {
    /// Creates an empty focus probe.
    pub fn new() -> (r: Self)
        ensures
            r@ == 0,
    {
        FocusRoundTripProbe { focus_calls: 0 }
    }

    /// Records that the widget's control callback ran.
    pub fn record_focus(&mut self)
        requires
            old(self)@ < usize::MAX,
        ensures
            final(self)@ == old(self)@ + 1,
    {
        self.focus_calls = self.focus_calls + 1;
    }

    /// The number of focus callbacks observed.
    pub fn focus_call_count(&self) -> (r: usize)
        ensures
            r == self@,
    {
        self.focus_calls
    }

    /// Asserts that one producer focus request reached the widget control callback.
    pub fn assert_focus_round_trip(&self)
        requires
            self@ == 1,
    {
    }

    /// Asserts that no producer focus request moved focus, as a disabled control must not.
    pub fn assert_focus_not_moved(&self)
        requires
            self@ == 0,
    {
    }
}

/// The characters of each id in a list of ids.
pub open spec fn str_views(ids: Seq<&str>) -> Seq<Seq<char>> {
    ids.map_values(|id: &str| id@)
}

/// The first id of a list, if any.
pub open spec fn first_id(ids: Seq<Seq<char>>) -> Option<Seq<char>> {
    if ids.len() > 0 {
        Some(ids[0])
    } else {
        None
    }
}

/// The invalid control of `meta` references exactly the expected parts: `aria-describedby` lists
/// the description ids, then every error id, and `aria-errormessage` names only the first error id.
pub open spec fn field_part_ids_hold(meta: crate::meta::FieldMetaView, descriptions: Seq<Seq<char>>, errors: Seq<Seq<char>>) -> bool {
    let registered = meta.registered.entries;
    &&& id_reference_list(ids_of(registered, RegisteredIdKind::Description) + ids_of(registered, RegisteredIdKind::Error))
        == id_reference_list(descriptions + errors)
    &&& first_id(ids_of(registered, RegisteredIdKind::Error)) == first_id(errors)
}

/// Copies a list of ids into owned text.
fn owned_ids(ids: &[&str]) -> (r: Vec<String>)
    ensures
        text_views(r@) == str_views(ids@),
{
    let mut out: Vec<String> = Vec::new();
    let mut i: usize = 0;
    while i < ids.len()
        invariant
            i <= ids@.len(),
            out@.len() == i,
            forall|k: int| 0 <= k < i ==> #[trigger] out@[k]@ == ids@[k]@,
        decreases ids@.len() - i,
    {
        out.push(ids[i].to_owned());
        i = i + 1;
    }
    proof {
        assert(text_views(out@) =~= str_views(ids@));
    }
    out
}

/// Joins ids into one ARIA id-reference list, or returns `None` for no ids.
pub fn joined_ids(ids: &[&str]) -> (r: Option<String>)
    ensures
        text_option_view(r) == id_reference_list(str_views(ids@)),
{
    join_ids(&owned_ids(ids))
}

/// Whether the invalid control of `meta` references exactly the expected description and error
/// parts, in mount order.
pub fn field_part_ids_match(meta: &FieldMeta, expected_description_ids: &[&str], expected_error_ids: &[&str]) -> (r: bool)
    ensures
        r == field_part_ids_hold(meta@, str_views(expected_description_ids@), str_views(expected_error_ids@)),
{
    let registered = meta.registered_ids();
    let mut described = registered.ids(RegisteredIdKind::Description);
    let errors = registered.ids(RegisteredIdKind::Error);
    let first_error = if errors.len() > 0 {
        Some(errors[0].clone())
    } else {
        None
    };
    let mut remaining_errors = errors;
    described.append(&mut remaining_errors);
    let mut expected = owned_ids(expected_description_ids);
    let mut expected_errors = owned_ids(expected_error_ids);
    let expected_first_error = if expected_errors.len() > 0 {
        Some(expected_errors[0].clone())
    } else {
        None
    };
    expected.append(&mut expected_errors);
    let actual_list = join_ids(&described);
    let expected_list = join_ids(&expected);
    let lists_match = text_options_equal(&actual_list, &expected_list);
    let firsts_match = text_options_equal(&first_error, &expected_first_error);
    proof {
        let registered_view = meta@.registered.entries;
        assert(text_views(described@) =~= ids_of(registered_view, RegisteredIdKind::Description) + ids_of(registered_view, RegisteredIdKind::Error));
        assert(text_views(expected@) =~= str_views(expected_description_ids@) + str_views(expected_error_ids@));
    }
    lists_match && firsts_match
}

/// Asserts the description and error ids currently registered in field metadata.
///
/// Call this once after the registry's description and error parts mount, then again with empty
/// expected lists after they drop. Id order must match mount order, because ARIA id references
/// are rendered in registration order.
pub fn assert_field_part_ids(meta: &FieldMeta, expected_description_ids: &[&str], expected_error_ids: &[&str])
    requires
        field_part_ids_hold(meta@, str_views(expected_description_ids@), str_views(expected_error_ids@)),
{
}

} // verus!

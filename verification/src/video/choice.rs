//! Which of the configured endpoints is tried for the camera of a device.
//!
//! The endpoints are tried in turn. One that turned out to be that of another device is not tried
//! again, and the first one that streamed is kept.
use crate::devices::{ResolvedVideoEndpoints, VideoView};
use crate::text;
use crate::video::VideoEndpoint;
use vstd::prelude::*;

verus! {

/// What a connection shows of the endpoint that it was made to.
#[derive(Debug, Clone, Copy, PartialEq, Eq, Structural)]
pub enum Outcome {
    /// The certificate there is not that of the device.
    Mismatched,
    /// A frame came from there.
    Streamed,
}

/// What is known of the camera of one device.
#[derive(Debug)]
pub struct EndpointChoice {
    /// The endpoints that may be tried, in order.
    pub endpoints: Vec<VideoEndpoint>,
    /// The endpoints that are known not to be those of the device.
    pub mismatched: Vec<VideoEndpoint>,
    /// The endpoint that streamed, once one has.
    pub kept: Option<VideoEndpoint>,
}

/// The view of what is known of a camera.
#[verifier::ext_equal]
pub struct ChoiceView {
    pub endpoints: Seq<VideoEndpoint>,
    pub mismatched: Seq<VideoEndpoint>,
    pub kept: Option<VideoEndpoint>,
}

impl View for EndpointChoice {
    type V = ChoiceView;

    open spec fn view(&self) -> ChoiceView {
        ChoiceView {
            endpoints: self.endpoints@,
            mismatched: self.mismatched@,
            kept: self.kept,
        }
    }
}

/// Whether two endpoints have the same host and port, whatever codes open them.
pub open spec fn same_place(a: VideoEndpoint, b: VideoEndpoint) -> bool {
    a.endpoint.host@ == b.endpoint.host@ && a.endpoint.port == b.endpoint.port
}

/// Whether one of `endpoints` is at the place of `endpoint`.
pub open spec fn has_place(endpoints: Seq<VideoEndpoint>, endpoint: VideoEndpoint) -> bool {
    exists|i: int| 0 <= i < endpoints.len() && same_place(#[trigger] endpoints[i], endpoint)
}

/// The first of `endpoints` that is at the place of none of `mismatched`.
pub open spec fn first_open(
    endpoints: Seq<VideoEndpoint>,
    mismatched: Seq<VideoEndpoint>,
) -> Option<VideoEndpoint>
    decreases endpoints.len(),
{
    if endpoints.len() == 0 {
        None
    } else {
        match first_open(endpoints.drop_last(), mismatched) {
            Some(endpoint) => Some(endpoint),
            None => if has_place(mismatched, endpoints.last()) {
                None
            } else {
                Some(endpoints.last())
            },
        }
    }
}

/// The endpoint that is tried next: the one that is kept; else the first that is not known to
/// mismatch.
pub open spec fn next_of(choice: ChoiceView) -> Option<VideoEndpoint> {
    match choice.kept {
        Some(endpoint) => Some(endpoint),
        None => first_open(choice.endpoints, choice.mismatched),
    }
}

/// What is known after the endpoint that was to be tried next was tried, with the given outcome.
pub open spec fn after_outcome(choice: ChoiceView, outcome: Outcome) -> ChoiceView {
    match (next_of(choice), outcome) {
        (None, _) => choice,
        (Some(endpoint), Outcome::Mismatched) => ChoiceView {
            mismatched: choice.mismatched.push(endpoint),
            ..choice
        },
        (Some(endpoint), Outcome::Streamed) => ChoiceView { kept: Some(endpoint), ..choice },
    }
}

/// What is known after several outcomes, one after the other.
pub open spec fn after_outcomes(choice: ChoiceView, outcomes: Seq<Outcome>) -> ChoiceView
    decreases outcomes.len(),
{
    if outcomes.len() == 0 {
        choice
    } else {
        after_outcome(after_outcomes(choice, outcomes.drop_last()), outcomes.last())
    }
}

/// The endpoints that may be tried for the device with the given id: the one that is its own,
/// where one is, and then all of them.
pub open spec fn candidates_of(videos: VideoView, id: Seq<char>) -> Seq<VideoEndpoint> {
    if videos.endpoint_map.contains_key(id) {
        seq![videos.endpoint_map[id]] + videos.endpoints
    } else {
        videos.endpoints
    }
}

/// Whether one of `endpoints` is at the place of `endpoint`.
fn includes_place(endpoints: &Vec<VideoEndpoint>, endpoint: &VideoEndpoint) -> (r: bool)
    ensures
        r == has_place(endpoints@, *endpoint),
{
    let mut i: usize = 0;
    while i < endpoints.len()
        invariant
            i <= endpoints@.len(),
            forall|k: int| 0 <= k < i ==> !same_place(#[trigger] endpoints@[k], *endpoint),
        decreases endpoints.len() - i,
    {
        let place = &endpoints[i].endpoint;
        if place.port == endpoint.endpoint.port && text::same(
            place.host.as_str(),
            endpoint.endpoint.host.as_str(),
        ) {
            assert(same_place(endpoints@[i as int], *endpoint));
            return true;
        }
        i = i + 1;
    }
    false
}

proof fn lemma_first_open_of_prefix(
    endpoints: Seq<VideoEndpoint>,
    mismatched: Seq<VideoEndpoint>,
    n: int,
)
    requires
        0 <= n <= endpoints.len(),
        first_open(endpoints.take(n), mismatched) is Some,
    ensures
        first_open(endpoints, mismatched) == first_open(endpoints.take(n), mismatched),
    decreases endpoints.len(),
{
    if n == endpoints.len() {
        assert(endpoints.take(n) =~= endpoints);
    } else {
        assert(endpoints.drop_last().take(n) =~= endpoints.take(n));
        lemma_first_open_of_prefix(endpoints.drop_last(), mismatched, n);
    }
}

impl EndpointChoice {
    /// What is known at first of the camera of the device with the given id.
    pub fn new(videos: &ResolvedVideoEndpoints, device_id: &str) -> (r: Self)
        ensures
            r@ == (ChoiceView {
                endpoints: candidates_of(videos@, device_id@),
                mismatched: Seq::empty(),
                kept: None,
            }),
    {
        let mut endpoints: Vec<VideoEndpoint> = Vec::new();
        if let Some(own) = videos.endpoint_map.get(device_id) {
            endpoints.push(own.clone());
        }
        let ghost own = endpoints@;
        let mut i: usize = 0;
        while i < videos.endpoints.len()
            invariant
                i <= videos.endpoints@.len(),
                endpoints@ == own + videos.endpoints@.take(i as int),
            decreases videos.endpoints.len() - i,
        {
            endpoints.push(videos.endpoints[i].clone());
            i = i + 1;
        }
        assert(endpoints@ =~= candidates_of(videos@, device_id@));
        EndpointChoice { endpoints, mismatched: Vec::new(), kept: None }
    }

    /// The endpoint that is tried next, if one is left.
    pub fn next(&self) -> (r: Option<&VideoEndpoint>)
        ensures
            match r {
                Some(endpoint) => next_of(self@) == Some(*endpoint),
                None => next_of(self@) is None,
            },
    {
        if let Some(endpoint) = &self.kept {
            return Some(endpoint);
        }
        let ghost all = self.endpoints@;
        let ghost mismatched = self.mismatched@;
        let mut i: usize = 0;
        while i < self.endpoints.len()
            invariant
                all == self.endpoints@,
                mismatched == self.mismatched@,
                self.kept is None,
                i <= all.len(),
                first_open(all.take(i as int), mismatched) is None,
            decreases self.endpoints.len() - i,
        {
            assert(all.take(i + 1).drop_last() =~= all.take(i as int));
            if !includes_place(&self.mismatched, &self.endpoints[i]) {
                proof {
                    lemma_first_open_of_prefix(all, mismatched, i + 1);
                }
                return Some(&self.endpoints[i]);
            }
            i = i + 1;
        }
        assert(all.take(i as int) =~= all);
        None
    }

    /// The endpoint that was to be tried next was tried, with the given outcome.
    pub fn take(&mut self, outcome: Outcome)
        ensures
            final(self)@ == after_outcome(old(self)@, outcome),
    {
        let tried = match self.next() {
            Some(endpoint) => endpoint.clone(),
            None => return ,
        };
        match outcome {
            Outcome::Mismatched => self.mismatched.push(tried),
            Outcome::Streamed => self.kept = Some(tried),
        }
    }
}

// ---------------------------------------------------------------------------
// What every choice keeps to
// ---------------------------------------------------------------------------

/// Until an endpoint is kept, what is tried is one of the endpoints that is not known to mismatch,
/// before which each is; and nothing is tried only where each is.
pub proof fn law_endpoints_are_tried_in_turn(choice: ChoiceView)
    requires
        choice.kept is None,
    ensures
        match next_of(choice) {
            Some(endpoint) => exists|i: int|
                {
                    &&& 0 <= i < choice.endpoints.len()
                    &&& #[trigger] choice.endpoints[i] == endpoint
                    &&& !has_place(choice.mismatched, endpoint)
                    &&& forall|j: int|
                        0 <= j < i ==> has_place(choice.mismatched, #[trigger] choice.endpoints[j])
                },
            None => forall|j: int|
                0 <= j < choice.endpoints.len() ==> has_place(
                    choice.mismatched,
                    #[trigger] choice.endpoints[j],
                ),
        },
    decreases choice.endpoints.len(),
{
    let all = choice.endpoints;
    if all.len() > 0 {
        let front = all.drop_last();
        law_endpoints_are_tried_in_turn(ChoiceView { endpoints: front, ..choice });
        assert forall|j: int| 0 <= j < front.len() implies front[j] == #[trigger] all[j] by {}
        match first_open(front, choice.mismatched) {
            Some(endpoint) => {
                let i = choose|i: int|
                    {
                        &&& 0 <= i < front.len()
                        &&& #[trigger] front[i] == endpoint
                        &&& !has_place(choice.mismatched, endpoint)
                        &&& forall|j: int|
                            0 <= j < i ==> has_place(choice.mismatched, #[trigger] front[j])
                    };
                assert(all[i] == endpoint);
                assert forall|j: int| 0 <= j < i implies has_place(
                    choice.mismatched,
                    #[trigger] all[j],
                ) by {
                    assert(has_place(choice.mismatched, front[j]));
                }
            },
            None => {
                assert forall|j: int| 0 <= j < front.len() implies has_place(
                    choice.mismatched,
                    #[trigger] all[j],
                ) by {
                    assert(has_place(choice.mismatched, front[j]));
                }
                if !has_place(choice.mismatched, all.last()) {
                    assert(all[all.len() - 1] == all.last());
                }
            },
        }
    }
}

/// Where a device has a camera of its own, that one is tried first.
pub proof fn law_own_endpoint_is_tried_first(videos: VideoView, id: Seq<char>)
    requires
        videos.endpoint_map.contains_key(id),
    ensures
        next_of(
            ChoiceView {
                endpoints: candidates_of(videos, id),
                mismatched: Seq::empty(),
                kept: None,
            },
        ) == Some(videos.endpoint_map[id]),
{
    let all = candidates_of(videos, id);
    let none = Seq::<VideoEndpoint>::empty();
    assert(all.take(1).drop_last() =~= none);
    assert(all.take(1).last() == videos.endpoint_map[id]);
    assert(!has_place(none, videos.endpoint_map[id]));
    assert(first_open(all.take(1).drop_last(), none) is None);
    lemma_first_open_of_prefix(all, none, 1);
}

/// The endpoint that streamed is tried from then on, whatever comes of it.
pub proof fn law_kept_endpoint_stays(choice: ChoiceView, outcomes: Seq<Outcome>)
    requires
        next_of(choice) is Some,
    ensures
        next_of(after_outcomes(after_outcome(choice, Outcome::Streamed), outcomes)) == next_of(
            choice,
        ),
        after_outcomes(after_outcome(choice, Outcome::Streamed), outcomes).kept == next_of(choice),
    decreases outcomes.len(),
{
    if outcomes.len() > 0 {
        law_kept_endpoint_stays(choice, outcomes.drop_last());
    }
}

/// An endpoint that mismatched before one was kept is never tried again.
pub proof fn law_mismatched_endpoint_is_not_tried_again(
    choice: ChoiceView,
    outcomes: Seq<Outcome>,
)
    requires
        choice.kept is None,
        next_of(choice) is Some,
    ensures
        match next_of(after_outcomes(after_outcome(choice, Outcome::Mismatched), outcomes)) {
            Some(endpoint) => !same_place(endpoint, next_of(choice)->0),
            None => true,
        },
{
    let tried = next_of(choice)->0;
    let start = after_outcome(choice, Outcome::Mismatched);
    assert(same_place(start.mismatched[choice.mismatched.len() as int], tried));
    lemma_shunned(start, outcomes, tried);
    lemma_shunned_is_not_next(after_outcomes(start, outcomes), tried);
}

/// Whether `endpoint` is known to mismatch, and none at its place is kept.
spec fn shunned(choice: ChoiceView, endpoint: VideoEndpoint) -> bool {
    &&& has_place(choice.mismatched, endpoint)
    &&& choice.kept matches Some(kept) ==> !same_place(kept, endpoint)
}

proof fn lemma_shunned_is_not_next(choice: ChoiceView, endpoint: VideoEndpoint)
    requires
        shunned(choice, endpoint),
    ensures
        next_of(choice) matches Some(next) ==> !same_place(next, endpoint),
{
    if choice.kept is None {
        law_endpoints_are_tried_in_turn(choice);
        if let Some(next) = next_of(choice) {
            if same_place(next, endpoint) {
                let i = choose|i: int|
                    0 <= i < choice.mismatched.len() && same_place(
                        #[trigger] choice.mismatched[i],
                        endpoint,
                    );
                assert(same_place(choice.mismatched[i], next));
            }
        }
    }
}

proof fn lemma_shunned(choice: ChoiceView, outcomes: Seq<Outcome>, endpoint: VideoEndpoint)
    requires
        shunned(choice, endpoint),
    ensures
        shunned(after_outcomes(choice, outcomes), endpoint),
    decreases outcomes.len(),
{
    if outcomes.len() > 0 {
        let before = after_outcomes(choice, outcomes.drop_last());
        lemma_shunned(choice, outcomes.drop_last(), endpoint);
        lemma_shunned_is_not_next(before, endpoint);
        let after = after_outcome(before, outcomes.last());
        let i = choose|i: int|
            0 <= i < before.mismatched.len() && same_place(
                #[trigger] before.mismatched[i],
                endpoint,
            );
        assert(after.mismatched[i] == before.mismatched[i]);
    }
}

/// Two endpoints are at one place where they have the same host and the same port, and only there.
pub proof fn law_place_is_host_and_port(
    a: VideoEndpoint,
    b: VideoEndpoint,
    known: Seq<VideoEndpoint>,
)
    ensures
        same_place(a, b) <==> a.endpoint.host@ == b.endpoint.host@ && a.endpoint.port
            == b.endpoint.port,
        has_place(known, a) <==> exists|i: int|
            0 <= i < known.len() && (#[trigger] known[i]).endpoint.host@ == a.endpoint.host@
                && known[i].endpoint.port == a.endpoint.port,
{
    if has_place(known, a) {
        let i = choose|i: int| 0 <= i < known.len() && same_place(#[trigger] known[i], a);
        assert(known[i].endpoint.host@ == a.endpoint.host@);
    }
    if exists|i: int|
        0 <= i < known.len() && (#[trigger] known[i]).endpoint.host@ == a.endpoint.host@
            && known[i].endpoint.port == a.endpoint.port {
        let i = choose|i: int|
            0 <= i < known.len() && (#[trigger] known[i]).endpoint.host@ == a.endpoint.host@
                && known[i].endpoint.port == a.endpoint.port;
        assert(same_place(known[i], a));
    }
}

/// What is known at first: the endpoint of the device, where it has one, and then every configured
/// one, in order; that none of them mismatches; and that none is kept.
pub proof fn law_choice_begins_with_all_endpoints(
    videos: &ResolvedVideoEndpoints,
    device_id: &str,
    r: EndpointChoice,
    next: Option<&VideoEndpoint>,
    i: int,
)
    requires
        call_ensures(EndpointChoice::new, (videos, device_id), r),
        call_ensures(EndpointChoice::next, (&r,), next),
        0 <= i < videos.endpoints@.len(),
    ensures
        r.kept is None,
        r.mismatched@.len() == 0,
        videos.endpoint_map@.contains_key(device_id@) ==> {
            &&& r.endpoints@.len() == videos.endpoints@.len() + 1
            &&& r.endpoints@[0] == videos.endpoint_map@[device_id@]
            &&& r.endpoints@[i + 1] == videos.endpoints@[i]
            &&& next is Some && *next->0 == videos.endpoint_map@[device_id@]
        },
        !videos.endpoint_map@.contains_key(device_id@) ==> {
            &&& r.endpoints@.len() == videos.endpoints@.len()
            &&& r.endpoints@[i] == videos.endpoints@[i]
            &&& next is Some && *next->0 == videos.endpoints@[0]
        },
{
    if videos.endpoint_map@.contains_key(device_id@) {
        law_own_endpoint_is_tried_first(videos@, device_id@);
        assert(r@ =~= ChoiceView {
            endpoints: candidates_of(videos@, device_id@),
            mismatched: Seq::empty(),
            kept: None,
        });
    } else {
        law_endpoints_are_tried_in_turn(r@);
        assert(!has_place(r@.mismatched, r@.endpoints[0]));
    }
}

/// An outcome is taken down for the endpoint that was tried: one that streamed is kept, one that
/// mismatched is known to, and nothing else changes.
pub proof fn law_outcome_is_taken_down(choice: ChoiceView)
    requires
        next_of(choice) is Some,
    ensures
        after_outcome(choice, Outcome::Streamed).kept == next_of(choice),
        after_outcome(choice, Outcome::Streamed).mismatched == choice.mismatched,
        after_outcome(choice, Outcome::Streamed).endpoints == choice.endpoints,
        after_outcome(choice, Outcome::Mismatched).kept == choice.kept,
        after_outcome(choice, Outcome::Mismatched).mismatched.len() == choice.mismatched.len() + 1,
        after_outcome(choice, Outcome::Mismatched).mismatched.last() == next_of(choice)->0,
        forall|i: int|
            0 <= i < choice.mismatched.len() ==> #[trigger] after_outcome(
                choice,
                Outcome::Mismatched,
            ).mismatched[i] == choice.mismatched[i],
        after_outcome(choice, Outcome::Mismatched).endpoints == choice.endpoints,
        choice.kept is Some ==> next_of(choice) == choice.kept,
{
}

/// What [`EndpointChoice::take`] leaves: the endpoint that was tried is kept where it streamed, is
/// known to mismatch where it did, and nothing else changes; where none was left to try, nothing does.
pub proof fn law_taking_an_outcome_concerns_what_was_tried(
    streamed: &mut EndpointChoice,
    mismatched: &mut EndpointChoice,
)
    requires
        call_ensures(EndpointChoice::take, (streamed, Outcome::Streamed), ()),
        call_ensures(EndpointChoice::take, (mismatched, Outcome::Mismatched), ()),
    ensures
        final(streamed).kept == next_of(old(streamed)@),
        final(streamed).mismatched@ == old(streamed).mismatched@,
        final(streamed).endpoints@ == old(streamed).endpoints@,
        final(mismatched).kept == old(mismatched).kept,
        final(mismatched).endpoints@ == old(mismatched).endpoints@,
        next_of(old(mismatched)@) is None ==> final(mismatched).mismatched@ == old(mismatched).mismatched@,
        next_of(old(mismatched)@) matches Some(tried) ==> final(mismatched).mismatched@ == old(mismatched).mismatched@.push(tried),
{
}

} // verus!

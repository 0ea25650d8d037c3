//! Building and playing event instances. A `SoundBuilder` gathers a target
//! event, an optional position and named parameters; `build` or `play_once`
//! turns it into a `Playback`, which tells the host one engine call at a time
//! what to do next, given how the previous call went.

use vstd::prelude::*;
use crate::resource::AudioSystem;
use crate::status::Status;
use crate::table::{key_index, lemma_key_index, lemma_key_index_same_keys, has_key, upsert};

verus! {

/// One engine call of a playback.
#[derive(Debug, PartialEq)]
pub enum Step<P, V> {
    /// Look up the event description at this full path.
    FindEvent(String),
    /// Load the sample data of the event found.
    LoadSampleData,
    /// Create an instance of the event found.
    CreateInstance,
    /// Set the instance's 3D attributes: this position, zero velocity.
    SetPosition(P),
    /// Set the instance's parameter of this name to this value.
    SetParameter(String, V),
    /// Start the instance.
    Start,
}

/// A `Step` with its strings seen as their characters.
pub enum StepModel<P, V> {
    FindEvent(Seq<char>),
    LoadSampleData,
    CreateInstance,
    SetPosition(P),
    SetParameter(Seq<char>, V),
    Start,
}

impl<P, V> View for Step<P, V> {
    type V = StepModel<P, V>;

    open spec fn view(&self) -> StepModel<P, V> {
        match self {
            Step::FindEvent(path) => StepModel::FindEvent(path@),
            Step::LoadSampleData => StepModel::LoadSampleData,
            Step::CreateInstance => StepModel::CreateInstance,
            Step::SetPosition(p) => StepModel::SetPosition(*p),
            Step::SetParameter(name, v) => StepModel::SetParameter(name@, *v),
            Step::Start => StepModel::Start,
        }
    }
}

/// What the host is to do next.
#[derive(Debug, PartialEq)]
pub enum Directive<P, V> {
    /// Make this engine call and report how it went.
    Perform(Step<P, V>),
    /// The playback failed with `error`. When `release` holds, the instance
    /// created earlier is released first.
    Fail { release: bool, error: Status },
    /// The playback is complete. When `release` holds the instance is
    /// released now (it plays on in the engine until it ends); otherwise any
    /// instance created is handed to the caller.
    Finish { release: bool },
}

pub enum DirectiveModel<P, V> {
    Perform(StepModel<P, V>),
    Fail { release: bool, error: Status },
    Finish { release: bool },
}

impl<P, V> View for Directive<P, V> {
    type V = DirectiveModel<P, V>;

    open spec fn view(&self) -> DirectiveModel<P, V> {
        match self {
            Directive::Perform(step) => DirectiveModel::Perform(step@),
            Directive::Fail { release, error } => DirectiveModel::Fail {
                release: *release,
                error: *error,
            },
            Directive::Finish { release } => DirectiveModel::Finish { release: *release },
        }
    }
}

/// The state of a playback.
pub struct PlaybackModel<P, V> {
    /// Calls not yet handed out.
    pub remaining: Seq<StepModel<P, V>>,
    /// An instance exists and is the playback's to release.
    pub created: bool,
    /// The call handed out last was the instance's creation.
    pub creating: bool,
    /// A finished playback releases its instance rather than handing it out.
    pub release_at_end: bool,
    pub finished: bool,
}

/// A playback that has made no call yet.
pub open spec fn fresh<P, V>(steps: Seq<StepModel<P, V>>, release_at_end: bool) -> PlaybackModel<P, V> {
    PlaybackModel { remaining: steps, created: false, creating: false, release_at_end, finished: false }
}

/// The next state and directive of playback `s`, told how its last call went
/// (`Ok(())` to begin).
pub open spec fn advance_model<P, V>(s: PlaybackModel<P, V>, outcome: Result<(), Status>) -> (
    PlaybackModel<P, V>,
    DirectiveModel<P, V>,
) {
    match outcome {
        Err(e) => (
            PlaybackModel { finished: true, ..s },
            DirectiveModel::Fail { release: s.created, error: e },
        ),
        Ok(_) => {
            let created = s.created || s.creating;
            if s.remaining.len() == 0 {
                (
                    PlaybackModel { created, creating: false, finished: true, ..s },
                    DirectiveModel::Finish { release: created && s.release_at_end },
                )
            } else {
                (
                    PlaybackModel {
                        remaining: s.remaining.drop_first(),
                        created,
                        creating: s.remaining[0] is CreateInstance,
                        ..s
                    },
                    DirectiveModel::Perform(s.remaining[0]),
                )
            }
        },
    }
}

/// Playback `s` after `k` calls that all went well (the first being the
/// report that begins it).
pub open spec fn after_successes<P, V>(s: PlaybackModel<P, V>, k: nat) -> PlaybackModel<P, V>
    decreases k,
{
    if k == 0 {
        s
    } else {
        advance_model(after_successes(s, (k - 1) as nat), Ok(())).0
    }
}

/// A sequence of engine calls that the host carries out one at a time.
pub struct Playback<P, V> {
    steps: Vec<Step<P, V>>,
    created: bool,
    creating: bool,
    release_at_end: bool,
    finished: bool,
}

impl<P, V> View for Playback<P, V> {
    type V = PlaybackModel<P, V>;

    closed spec fn view(&self) -> PlaybackModel<P, V> {
        PlaybackModel {
            remaining: self.steps@.map_values(|s: Step<P, V>| s@),
            created: self.created,
            creating: self.creating,
            release_at_end: self.release_at_end,
            finished: self.finished,
        }
    }
}

impl<P, V> Playback<P, V> {
    fn from_steps(steps: Vec<Step<P, V>>, release_at_end: bool) -> (r: Self)
        ensures
            r@ == fresh(steps@.map_values(|s: Step<P, V>| s@), release_at_end),
    {
        Playback { steps, created: false, creating: false, release_at_end, finished: false }
    }

    /// Whether the playback has ended, by failing or finishing.
    pub fn is_finished(&self) -> (r: bool)
        ensures
            r == self@.finished,
    {
        self.finished
    }

    /// Given how the last call went (`Ok(())` to begin), what to do next. A
    /// failure ends the playback, releasing the instance if one was created.
    pub fn advance(&mut self, outcome: Result<(), Status>) -> (r: Directive<P, V>)
        requires
            !old(self)@.finished,
        ensures
            (final(self)@, r@) == advance_model(old(self)@, outcome),
    {
        match outcome {
            Err(e) => {
                self.finished = true;
                Directive::Fail { release: self.created, error: e }
            },
            Ok(_) => {
                self.created = self.created || self.creating;
                if self.steps.len() == 0 {
                    self.creating = false;
                    self.finished = true;
                    Directive::Finish { release: self.created && self.release_at_end }
                } else {
                    let ghost before = self.steps@;
                    let step = self.steps.remove(0);
                    assert(self.steps@.map_values(|s: Step<P, V>| s@) =~= before.map_values(
                        |s: Step<P, V>| s@,
                    ).drop_first());
                    self.creating = match step {
                        Step::CreateInstance => true,
                        _ => false,
                    };
                    Directive::Perform(step)
                }
            },
        }
    }
}

/// What a `SoundBuilder` holds.
pub struct BuilderModel<P, V> {
    /// Full path of the target event.
    pub event: Seq<char>,
    pub position: Option<P>,
    /// Parameters by name, in the order each name was first set.
    pub params: Seq<(Seq<char>, V)>,
}

impl<P, V> BuilderModel<P, V> {
    /// The calls that build the instance: find the event, create the
    /// instance, set its position if one was given, then each parameter.
    pub open spec fn build_steps(self) -> Seq<StepModel<P, V>> {
        seq![StepModel::FindEvent(self.event), StepModel::CreateInstance] + match self.position {
            Some(p) => seq![StepModel::SetPosition(p)],
            None => Seq::empty(),
        } + self.params.map_values(|p: (Seq<char>, V)| StepModel::SetParameter(p.0, p.1))
    }

    /// The playback that builds the instance, and either hands it out or, when
    /// `fire_and_forget` holds, starts and releases it.
    pub open spec fn plan(self, fire_and_forget: bool) -> PlaybackModel<P, V> {
        if fire_and_forget {
            fresh(self.build_steps().push(StepModel::Start), true)
        } else {
            fresh(self.build_steps(), false)
        }
    }
}

/// `params` after each of `more`, in order, was set.
pub open spec fn with_all<V>(params: Seq<(Seq<char>, V)>, more: Seq<(Seq<char>, V)>) -> Seq<(Seq<char>, V)>
    decreases more.len(),
{
    if more.len() == 0 {
        params
    } else {
        upsert(with_all(params, more.drop_last()), more.last().0, more.last().1)
    }
}

/// The settings of one playback of an event.
pub struct SoundBuilder<P, V> {
    event: String,
    position: Option<P>,
    params: Vec<(String, V)>,
}

impl<P, V> View for SoundBuilder<P, V> {
    type V = BuilderModel<P, V>;

    closed spec fn view(&self) -> BuilderModel<P, V> {
        BuilderModel {
            event: self.event@,
            position: self.position,
            params: self.params@.map_values(|p: (String, V)| (p.0@, p.1)),
        }
    }
}

impl<P, V> SoundBuilder<P, V> {
    /// A builder for the event `event`, short name or full path, resolved
    /// through `system`, with no position and no parameters.
    pub fn new<S, B>(system: &AudioSystem<S, B>, event: &str) -> (r: Self)
        ensures
            r@.event == system@.resolve(event@),
            r@.position == None::<P>,
            r@.params.len() == 0,
    {
        let r = SoundBuilder {
            event: String::from_str(system.resolve(event)),
            position: None,
            params: Vec::new(),
        };
        assert(r@.params =~= Seq::empty());
        r
    }

    /// The builder with the instance placed at `pos`.
    pub fn with_position(self, pos: P) -> (r: Self)
        ensures
            r@ == (BuilderModel { position: Some(pos), ..self@ }),
    {
        SoundBuilder { position: Some(pos), ..self }
    }

    /// The builder with parameter `name` set to `value`. A name set before
    /// keeps its place and takes the new value.
    pub fn with_param(self, name: &str, value: V) -> (r: Self)
        ensures
            r@ == (BuilderModel { params: upsert(self@.params, name@, value), ..self@ }),
    {
        let mut params = self.params;
        let ghost before = params@.map_values(|p: (String, V)| (p.0@, p.1));
        proof {
            lemma_key_index_same_keys(crate::table::entries(params@), before, name@);
            lemma_key_index(before, name@);
        }
        match crate::table::find_key(&params, name) {
            Some(i) => {
                params.set(i, (String::from_str(name), value));
            },
            None => {
                params.push((String::from_str(name), value));
            },
        }
        assert(params@.map_values(|p: (String, V)| (p.0@, p.1)) =~= upsert(before, name@, value));
        SoundBuilder { params, ..self }
    }
}

impl<P, V: Copy> SoundBuilder<P, V> {
    /// The builder with each of `params` set, in order.
    pub fn with_params(self, params: &[(&str, V)]) -> (r: Self)
        ensures
            r@ == (BuilderModel {
                params: with_all(self@.params, params@.map_values(|p: (&str, V)| (p.0@, p.1))),
                ..self@
            }),
    {
        let ghost more = params@.map_values(|p: (&str, V)| (p.0@, p.1));
        let mut r = self;
        let mut i: usize = 0;
        assert(more.subrange(0, 0) =~= Seq::<(Seq<char>, V)>::empty());
        while i < params.len()
            invariant
                i <= params@.len(),
                more == params@.map_values(|p: (&str, V)| (p.0@, p.1)),
                r@ == (BuilderModel {
                    params: with_all(self@.params, more.subrange(0, i as int)),
                    ..self@
                }),
            decreases params@.len() - i,
        {
            let (name, value) = params[i];
            assert(more.subrange(0, i + 1).drop_last() =~= more.subrange(0, i as int));
            r = r.with_param(name, value);
            i = i + 1;
        }
        assert(more.subrange(0, i as int) =~= more);
        r
    }
}

impl<P, V> SoundBuilder<P, V> {
    fn into_steps(self) -> (r: Vec<Step<P, V>>)
        ensures
            r@.map_values(|s: Step<P, V>| s@) == self@.build_steps(),
    {
        let ghost model = self@;
        let mut steps: Vec<Step<P, V>> = Vec::new();
        steps.push(Step::FindEvent(self.event));
        steps.push(Step::CreateInstance);
        match self.position {
            Some(p) => {
                steps.push(Step::SetPosition(p));
            },
            None => {},
        }
        let ghost head = steps@.map_values(|s: Step<P, V>| s@);
        assert(head =~= seq![StepModel::FindEvent(model.event), StepModel::CreateInstance]
            + match model.position {
            Some(p) => seq![StepModel::SetPosition(p)],
            None => Seq::empty(),
        });
        let ghost all = model.params.map_values(
            |p: (Seq<char>, V)| StepModel::<P, V>::SetParameter(p.0, p.1),
        );
        let mut params = self.params;
        let n: usize = params.len();
        let mut taken: usize = 0;
        assert(model.params.len() == n);
        assert(params@.map_values(|p: (String, V)| (p.0@, p.1)) =~= model.params.subrange(0, n as int));
        assert(all.subrange(0, 0) =~= Seq::<StepModel<P, V>>::empty());
        assert(head + all.subrange(0, 0) =~= head);
        while params.len() > 0
            invariant
                taken + params@.len() == n == all.len() == model.params.len(),
                all == model.params.map_values(
                    |p: (Seq<char>, V)| StepModel::<P, V>::SetParameter(p.0, p.1),
                ),
                steps@.map_values(|s: Step<P, V>| s@) == head + all.subrange(0, taken as int),
                params@.map_values(|p: (String, V)| (p.0@, p.1)) == model.params.subrange(
                    taken as int,
                    n as int,
                ),
            decreases params@.len(),
        {
            let ghost before = params@;
            let ghost bm = before.map_values(|p: (String, V)| (p.0@, p.1));
            assert(bm[0] == model.params[taken as int]);
            let (name, value) = params.remove(0);
            assert(name@ == model.params[taken as int].0 && value == model.params[taken as int].1);
            let ghost pm = params@.map_values(|p: (String, V)| (p.0@, p.1));
            assert forall|j: int| 0 <= j < params@.len() implies #[trigger] pm[j]
                == model.params[taken + 1 + j] by {
                assert(params@[j] == before[j + 1]);
                assert(bm[j + 1] == model.params.subrange(taken as int, n as int)[j + 1]);
            }
            assert(params@.map_values(|p: (String, V)| (p.0@, p.1)) =~= model.params.subrange(
                taken + 1,
                n as int,
            ));
            let ghost prev = steps@;
            assert(all[taken as int] == StepModel::<P, V>::SetParameter(
                model.params[taken as int].0,
                model.params[taken as int].1,
            ));
            assert(all[taken as int] == StepModel::<P, V>::SetParameter(name@, value));
            steps.push(Step::SetParameter(name, value));
            assert(head + all.subrange(0, taken + 1) =~= (head + all.subrange(0, taken as int)).push(
                all[taken as int],
            ));
            assert(steps@.map_values(|s: Step<P, V>| s@) =~= prev.map_values(|s: Step<P, V>| s@).push(
                all[taken as int],
            ));
            assert(steps@.map_values(|s: Step<P, V>| s@) =~= head + all.subrange(0, taken + 1));
            taken = taken + 1;
        }
        assert(all.subrange(0, n as int) =~= all);
        steps
    }

    /// The playback that builds the instance and hands it to the caller.
    pub fn build(self) -> (r: Playback<P, V>)
        ensures
            r@ == self@.plan(false),
    {
        Playback::from_steps(self.into_steps(), false)
    }

    /// The playback that builds the instance, starts it, and releases it,
    /// leaving the engine to play it out.
    pub fn play_once(self) -> (r: Playback<P, V>)
        ensures
            r@ == self@.plan(true),
    {
        let ghost model = self@;
        let mut steps = self.into_steps();
        steps.push(Step::Start);
        assert(steps@.map_values(|s: Step<P, V>| s@) =~= model.build_steps().push(StepModel::Start));
        Playback::from_steps(steps, true)
    }
}

} // verus!

verus! {

impl<S, B> AudioSystem<S, B> {
    /// A builder for the event `name`, short name or full path.
    pub fn sound<P, V>(&self, name: &str) -> (r: SoundBuilder<P, V>)
        ensures
            r@ == (BuilderModel::<P, V> {
                event: self@.resolve(name@),
                position: None,
                params: Seq::empty(),
            }),
    {
        let r = SoundBuilder::new(self, name);
        assert(r@.params =~= Seq::empty());
        r
    }

    /// The playback that creates an instance of the event `name`, starts it
    /// and releases it.
    pub fn play_simple<P, V>(&self, name: &str) -> (r: Playback<P, V>)
        ensures
            r@ == fresh(
                seq![
                    StepModel::<P, V>::FindEvent(self@.resolve(name@)),
                    StepModel::CreateInstance,
                    StepModel::Start,
                ],
                true,
            ),
    {
        let mut steps: Vec<Step<P, V>> = Vec::new();
        steps.push(Step::FindEvent(String::from_str(self.resolve(name))));
        steps.push(Step::CreateInstance);
        steps.push(Step::Start);
        let r = Playback::from_steps(steps, true);
        assert(r@.remaining =~= seq![
            StepModel::<P, V>::FindEvent(self@.resolve(name@)),
            StepModel::CreateInstance,
            StepModel::Start,
        ]);
        r
    }

    /// The playback that loads the sample data of the event `name`.
    pub fn preload<P, V>(&self, name: &str) -> (r: Playback<P, V>)
        ensures
            r@ == fresh(
                seq![StepModel::<P, V>::FindEvent(self@.resolve(name@)), StepModel::LoadSampleData],
                false,
            ),
    {
        let mut steps: Vec<Step<P, V>> = Vec::new();
        steps.push(Step::FindEvent(String::from_str(self.resolve(name))));
        steps.push(Step::LoadSampleData);
        let r = Playback::from_steps(steps, false);
        assert(r@.remaining =~= seq![
            StepModel::<P, V>::FindEvent(self@.resolve(name@)),
            StepModel::LoadSampleData,
        ]);
        r
    }
}

/// After `k` successful reports a fresh playback has handed out its first
/// `k` calls and holds an instance exactly when one of the first `k - 1`
/// created it.
pub proof fn lemma_after_successes<P, V>(steps: Seq<StepModel<P, V>>, release_at_end: bool, k: nat)
    requires
        1 <= k <= steps.len(),
    ensures
        ({
            let s = after_successes(fresh(steps, release_at_end), k);
            &&& s.remaining == steps.subrange(k as int, steps.len() as int)
            &&& !s.finished
            &&& s.release_at_end == release_at_end
            &&& s.creating == (steps[k - 1] is CreateInstance)
            &&& s.created == exists|j: int| 0 <= j < k - 1 && (#[trigger] steps[j]) is CreateInstance
        }),
    decreases k,
{
    if k == 1 {
        assert(after_successes(fresh(steps, release_at_end), 0) == fresh(steps, release_at_end));
        assert(steps.drop_first() =~= steps.subrange(1, steps.len() as int));
    } else {
        lemma_after_successes(steps, release_at_end, (k - 1) as nat);
        let prev = after_successes(fresh(steps, release_at_end), (k - 1) as nat);
        assert(prev.remaining.drop_first() =~= steps.subrange(k as int, steps.len() as int));
        assert(prev.remaining[0] == steps[k - 1]);
        let s = after_successes(fresh(steps, release_at_end), k);
        if s.created {
            if !prev.created {
                assert(steps[k - 2] is CreateInstance);
            }
        } else {
            assert forall|j: int| 0 <= j < k - 1 implies !(#[trigger] steps[j] is CreateInstance) by {
                if j < k - 2 {
                } else {
                    assert(j == k - 2);
                }
            }
        }
    }
}

/// A build that fails releases exactly the instance it created: when the
/// call after `k` successful reports fails, the playback ends with that error
/// and releases the instance if and only if its creation had succeeded, that
/// is when `k` is at least 3 (the first report, the event lookup, the
/// creation).
pub proof fn lemma_failure_releases_instance<P, V>(
    b: BuilderModel<P, V>,
    fire_and_forget: bool,
    k: nat,
    e: Status,
)
    requires
        k <= b.plan(fire_and_forget).remaining.len(),
    ensures
        advance_model(after_successes(b.plan(fire_and_forget), k), Err(e)).1
            == (DirectiveModel::<P, V>::Fail { release: k >= 3, error: e }),
{
    let plan = b.plan(fire_and_forget);
    let steps = plan.remaining;
    assert(steps[0] == StepModel::<P, V>::FindEvent(b.event));
    assert(steps[1] == StepModel::<P, V>::CreateInstance);
    assert(plan == fresh(steps, plan.release_at_end));
    if k >= 1 {
        lemma_after_successes(steps, plan.release_at_end, k);
        if k >= 3 {
            assert(steps[1] is CreateInstance);
        }
    }
}

} // verus!

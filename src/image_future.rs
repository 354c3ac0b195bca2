use vstd::prelude::*;

verus! {

/// What the host has reported of an image resource so far.
#[derive(Clone, Copy, Debug, PartialEq, Eq, Structural)]
pub enum LoadState {
    /// Neither callback has fired.
    Pending,
    /// The "loaded" callback fired first.
    Loaded,
    /// The "load-error" callback fired first.
    Failed,
}

/// The terminal result of one image load.
#[derive(Clone, Copy, Debug, PartialEq, Eq, Structural)]
pub enum LoadOutcome {
    Loaded,
    Failed,
}

/// What the host does after polling a load.
#[derive(Clone, Copy, Debug, PartialEq, Eq, Structural)]
pub enum PollStep {
    /// Register the "loaded" and "load-error" callbacks on the resource, then
    /// wait for one of them.
    Subscribe,
    /// Keep waiting; the callbacks are already registered.
    Pending,
    /// The load is over with this outcome.
    Ready(LoadOutcome),
}

pub struct LoaderModel {
    pub path: Seq<char>,
    pub state: LoadState,
    pub subscribed: bool,
    pub resolved: bool,
}

/// The state of the load after a poll in which the host reports whether
/// the resource is already complete.
pub open spec fn after_poll(m: LoaderModel, complete: bool) -> LoaderModel {
    if m.resolved {
        m
    } else if m.state != LoadState::Pending || complete {
        LoaderModel { resolved: true, ..m }
    } else {
        LoaderModel { subscribed: true, ..m }
    }
}

/// The step a poll hands back. A load that already finished stays finished
/// and hands out nothing more; one that is complete at its first poll
/// resolves at once, before any callback is registered; otherwise the
/// callbacks are registered on the first poll only.
pub open spec fn poll_step(m: LoaderModel, complete: bool) -> PollStep {
    if m.resolved {
        PollStep::Ready(LoadOutcome::Failed)
    } else if m.state == LoadState::Failed {
        PollStep::Ready(LoadOutcome::Failed)
    } else if m.state == LoadState::Loaded || complete {
        PollStep::Ready(LoadOutcome::Loaded)
    } else if !m.subscribed {
        PollStep::Subscribe
    } else {
        PollStep::Pending
    }
}

/// The load of one image: it turns the two competing host callbacks into a
/// single terminal outcome, handed out by exactly one poll.
pub struct ImageFuture {
    path: String,
    state: LoadState,
    subscribed: bool,
    resolved: bool,
}

impl View for ImageFuture {
    type V = LoaderModel;

    closed spec fn view(&self) -> LoaderModel {
        LoaderModel {
            path: self.path@,
            state: self.state,
            subscribed: self.subscribed,
            resolved: self.resolved,
        }
    }
}

impl ImageFuture {
    pub fn new(path: &str) -> (r: ImageFuture)
        ensures
            r@ == (LoaderModel {
                path: path@,
                state: LoadState::Pending,
                subscribed: false,
                resolved: false,
            }),
    {
        ImageFuture { path: path.to_owned(), state: LoadState::Pending, subscribed: false, resolved: false }
    }

    pub fn get_image_path(&self) -> (r: &str)
        ensures
            r@ == self@.path,
    {
        self.path.as_str()
    }

    pub fn state(&self) -> (r: LoadState)
        ensures
            r == self@.state,
    {
        self.state
    }

    /// The host's "loaded" callback; only the first callback to fire counts.
    pub fn on_load(&mut self)
        ensures
            final(self)@ == (if old(self)@.state == LoadState::Pending {
                LoaderModel { state: LoadState::Loaded, ..old(self)@ }
            } else {
                old(self)@
            }),
    {
        if self.state == LoadState::Pending {
            self.state = LoadState::Loaded;
        }
    }

    /// The host's "load-error" callback; only the first callback to fire
    /// counts.
    pub fn on_error(&mut self)
        ensures
            final(self)@ == (if old(self)@.state == LoadState::Pending {
                LoaderModel { state: LoadState::Failed, ..old(self)@ }
            } else {
                old(self)@
            }),
    {
        if self.state == LoadState::Pending {
            self.state = LoadState::Failed;
        }
    }

    /// Polls the load; `complete` is whether the host reports the resource
    /// as fully loaded already.
    pub fn poll(&mut self, complete: bool) -> (r: PollStep)
        ensures
            r == poll_step(old(self)@, complete),
            final(self)@ == after_poll(old(self)@, complete),
    {
        if self.resolved {
            return PollStep::Ready(LoadOutcome::Failed);
        }
        match self.state {
            LoadState::Failed => {
                self.resolved = true;
                PollStep::Ready(LoadOutcome::Failed)
            },
            LoadState::Loaded => {
                self.resolved = true;
                PollStep::Ready(LoadOutcome::Loaded)
            },
            LoadState::Pending => {
                if complete {
                    self.resolved = true;
                    PollStep::Ready(LoadOutcome::Loaded)
                } else if !self.subscribed {
                    self.subscribed = true;
                    PollStep::Subscribe
                } else {
                    PollStep::Pending
                }
            },
        }
    }
}

/// The callbacks are registered at most once: once a load has asked for
/// them, no later poll asks again, whatever the host reports or calls back.
pub proof fn lemma_subscribe_once(m: LoaderModel, complete: bool)
    requires
        m.subscribed,
    ensures
        poll_step(m, complete) != PollStep::Subscribe,
        after_poll(m, complete).subscribed,
{
}

/// A load hands out its outcome once: after a poll that made it ready, a
/// later poll hands out no "loaded" outcome again and registers nothing.
pub proof fn lemma_ready_once(m: LoaderModel, complete: bool, again: bool)
    requires
        poll_step(m, complete) is Ready,
    ensures
        poll_step(after_poll(m, complete), again) == PollStep::Ready(LoadOutcome::Failed),
        after_poll(after_poll(m, complete), again) == after_poll(m, complete),
{
}

/// A resource that is complete when first polled resolves the load at that
/// poll, before any callback is registered.
pub proof fn lemma_complete_resolves_at_once(path: Seq<char>)
    ensures
        ({
            let m = LoaderModel { path, state: LoadState::Pending, subscribed: false, resolved: false };
            &&& poll_step(m, true) == PollStep::Ready(LoadOutcome::Loaded)
            &&& !after_poll(m, true).subscribed
        }),
{
}

} // verus!

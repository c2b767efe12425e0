//! The live-preview page: one preview session per camera, each with its own
//! window; closing one window leaves the others playing.
//!
//! Opening a preview, stopping a stream and the windows themselves are the
//! application's work. Here stands what decides: which session a request
//! opens, stops or drops, and which stream handles must be released (the
//! `released` outbox, which the application empties with `take_released`).

use vstd::prelude::*;

use crate::public::module::{Module, ModuleGroup};
use crate::text::{int_decimal, push_nat};

verus! {

broadcast use vstd::string::group_string_axioms;

/// What opening a preview came to.
#[derive(Debug, Clone, Copy, PartialEq, Eq, Structural)]
pub enum PreviewOutcome {
    /// No attempt was made (the user was not logged in).
    NotTried,
    /// The preview window could not be created.
    NoWindow,
    /// The stream could not be started; the SDK's last error code.
    Failed(u32),
    /// The stream plays under this handle (0 or more).
    Playing(i32),
}

/// One preview session: a camera channel of a logged-in user, its stream
/// handle and its window.
#[derive(Debug)]
pub struct RealPlaySession {
    pub user_id: i32,
    pub channel: i32,
    pub real_handle: i32,
    pub preview_active: bool,
    /// The session still owns its preview window.
    pub has_window: bool,
}

/// The message for a stream that did not start.
pub open spec fn real_play_error(code: u32) -> Seq<char> {
    "NET_DVR_RealPlay_V40 failed: err "@ + int_decimal(code as int)
}

/// A session after `stop`: its stream handle given up (-1), no window,
/// inactive.
pub open spec fn stopped(s: RealPlaySession) -> RealPlaySession {
    RealPlaySession {
        real_handle: if s.real_handle >= 0 {
            -1i32
        } else {
            s.real_handle
        },
        preview_active: false,
        has_window: false,
        ..s
    }
}

/// The stream handle that stopping a session releases, if it holds one.
pub open spec fn released_by(s: RealPlaySession) -> Seq<i32> {
    if s.real_handle >= 0 {
        seq![s.real_handle]
    } else {
        Seq::empty()
    }
}

impl RealPlaySession {
    /// The session that opening a preview gives: refused when the user is
    /// not logged in (`user_id` 0 or less), else according to the outcome.
    pub fn new(user_id: i32, channel: i32, outcome: PreviewOutcome) -> (r: Result<Self, String>)
        requires
            outcome matches PreviewOutcome::Playing(h) ==> h >= 0,
        ensures
            user_id <= 0 ==> (r matches Err(e) && e@ == "not logged in"@),
            user_id > 0 ==> match outcome {
                PreviewOutcome::Playing(h) => (r matches Ok(s) && s.user_id == user_id && s.channel
                    == channel && s.real_handle == h && s.preview_active && s.has_window),
                PreviewOutcome::Failed(code) => (r matches Err(e) && e@ == real_play_error(code)),
                _ => (r matches Err(e) && e@ == "failed to create X11 preview window"@),
            },
    {
        if user_id <= 0 {
            return Err("not logged in".to_owned());
        }
        match outcome {
            PreviewOutcome::Playing(h) => Ok(
                RealPlaySession {
                    user_id,
                    channel,
                    real_handle: h,
                    preview_active: true,
                    has_window: true,
                },
            ),
            PreviewOutcome::Failed(code) => {
                let mut e = "NET_DVR_RealPlay_V40 failed: err ".to_owned();
                push_nat(&mut e, code);
                Err(e)
            },
            _ => Err("failed to create X11 preview window".to_owned()),
        }
    }

    /// Stops the stream and drops the window; gives the stream handle to
    /// release, if the session held one.
    pub fn stop(&mut self) -> (released: Option<i32>)
        ensures
            *final(self) == stopped(*old(self)),
            released == (if old(self).real_handle >= 0 {
                Some(old(self).real_handle)
            } else {
                None::<i32>
            }),
    {
        let released = if self.real_handle >= 0 {
            let h = self.real_handle;
            self.real_handle = -1;
            Some(h)
        } else {
            None
        };
        self.has_window = false;
        self.preview_active = false;
        released
    }

    /// Handles the window's events: when the user closed the window
    /// (`window_open` false) the session stops and false comes back, with
    /// the handle to release.
    pub fn poll_window_events(&mut self, window_open: bool) -> (r: (bool, Option<i32>))
        ensures
            old(self).has_window && !window_open ==> {
                &&& !r.0
                &&& *final(self) == stopped(*old(self))
                &&& r.1 == (if old(self).real_handle >= 0 {
                    Some(old(self).real_handle)
                } else {
                    None::<i32>
                })
            },
            !(old(self).has_window && !window_open) ==> r.0 && *final(self) == *old(self) && r.1
                is None,
    {
        if self.has_window && !window_open {
            let released = self.stop();
            return (false, released);
        }
        (true, None)
    }
}

/// Whether a session is the one of `user_id` on `channel`.
pub open spec fn is_session_of(s: RealPlaySession, user_id: i32, channel: i32) -> bool {
    s.user_id == user_id && s.channel == channel
}

/// The index of the first session of `user_id` on `channel`, or -1.
pub open spec fn session_index(ss: Seq<RealPlaySession>, user_id: i32, channel: i32) -> int
    decreases ss.len(),
{
    if ss.len() == 0 {
        -1
    } else if is_session_of(ss[0], user_id, channel) {
        0
    } else {
        let r = session_index(ss.drop_first(), user_id, channel);
        if r < 0 {
            -1
        } else {
            r + 1
        }
    }
}

/// The sessions after `start`: the first session of `user_id` on
/// `channel`, if any, is stopped in place.
pub open spec fn after_start(ss: Seq<RealPlaySession>, user_id: i32, channel: i32) -> Seq<
    RealPlaySession,
> {
    let k = session_index(ss, user_id, channel);
    if k < 0 {
        ss
    } else {
        ss.update(k, stopped(ss[k]))
    }
}

/// The handles that stopping every session of `ss` releases, in order.
pub open spec fn released_by_all(ss: Seq<RealPlaySession>) -> Seq<i32>
    decreases ss.len(),
{
    if ss.len() == 0 {
        Seq::empty()
    } else {
        released_by_all(ss.drop_last()) + released_by(ss.last())
    }
}

/// Whether polling keeps a session: not when its window was closed.
pub open spec fn kept_by_poll(s: RealPlaySession, open: bool) -> bool {
    !(s.has_window && !open)
}

/// The sessions that polling keeps.
pub open spec fn polled_sessions(ss: Seq<RealPlaySession>, open: Seq<bool>) -> Seq<RealPlaySession>
    decreases ss.len(),
{
    if ss.len() == 0 {
        Seq::empty()
    } else {
        let rest = polled_sessions(ss.drop_last(), open.take(ss.len() - 1));
        if kept_by_poll(ss.last(), open[ss.len() - 1]) {
            rest.push(ss.last())
        } else {
            rest
        }
    }
}

/// The handles that polling releases.
pub open spec fn polled_released(ss: Seq<RealPlaySession>, open: Seq<bool>) -> Seq<i32>
    decreases ss.len(),
{
    if ss.len() == 0 {
        Seq::empty()
    } else {
        let rest = polled_released(ss.drop_last(), open.take(ss.len() - 1));
        if kept_by_poll(ss.last(), open[ss.len() - 1]) {
            rest
        } else {
            rest + released_by(ss.last())
        }
    }
}

/// The sessions that are not of `user_id` on `channel`, in order.
pub open spec fn without_pair(ss: Seq<RealPlaySession>, user_id: i32, channel: i32) -> Seq<
    RealPlaySession,
>
    decreases ss.len(),
{
    if ss.len() == 0 {
        Seq::empty()
    } else {
        let rest = without_pair(ss.drop_last(), user_id, channel);
        if is_session_of(ss.last(), user_id, channel) {
            rest
        } else {
            rest.push(ss.last())
        }
    }
}

/// The handles that dropping every session of `user_id` on `channel`
/// releases, in order.
pub open spec fn released_of_pair(ss: Seq<RealPlaySession>, user_id: i32, channel: i32) -> Seq<i32>
    decreases ss.len(),
{
    if ss.len() == 0 {
        Seq::empty()
    } else {
        let rest = released_of_pair(ss.drop_last(), user_id, channel);
        if is_session_of(ss.last(), user_id, channel) {
            rest + released_by(ss.last())
        } else {
            rest
        }
    }
}

/// How many of the sessions play.
pub open spec fn active_sessions(ss: Seq<RealPlaySession>) -> nat
    decreases ss.len(),
{
    if ss.len() == 0 {
        0
    } else {
        active_sessions(ss.drop_last()) + if ss.last().preview_active {
            1nat
        } else {
            0nat
        }
    }
}

/// Whether some session plays.
pub open spec fn some_active(ss: Seq<RealPlaySession>) -> bool {
    exists|j: int| 0 <= j < ss.len() && (#[trigger] ss[j]).preview_active
}

proof fn lemma_session_index_found(ss: Seq<RealPlaySession>, user_id: i32, channel: i32, i: int)
    requires
        0 <= i < ss.len(),
        forall|j: int| 0 <= j < i ==> !is_session_of(#[trigger] ss[j], user_id, channel),
        is_session_of(ss[i], user_id, channel),
    ensures
        session_index(ss, user_id, channel) == i,
    decreases i,
{
    if i > 0 {
        let t = ss.drop_first();
        assert forall|j: int| 0 <= j < i - 1 implies !is_session_of(#[trigger] t[j], user_id, channel) by {
            assert(t[j] == ss[j + 1]);
        }
        assert(!is_session_of(ss[0], user_id, channel));
        lemma_session_index_found(t, user_id, channel, i - 1);
    }
}

proof fn lemma_session_index_absent(ss: Seq<RealPlaySession>, user_id: i32, channel: i32)
    requires
        forall|j: int| 0 <= j < ss.len() ==> !is_session_of(#[trigger] ss[j], user_id, channel),
    ensures
        session_index(ss, user_id, channel) == -1,
    decreases ss.len(),
{
    if ss.len() > 0 {
        let t = ss.drop_first();
        assert forall|j: int| 0 <= j < t.len() implies !is_session_of(#[trigger] t[j], user_id, channel) by {
            assert(t[j] == ss[j + 1]);
        }
        assert(!is_session_of(ss[0], user_id, channel));
        lemma_session_index_absent(t, user_id, channel);
    }
}

/// The preview manager: every listed session, the stream handle and user of
/// the last preview started (-1 when none plays), and the stream handles
/// released but not yet handed to the application.
pub struct RealPlay {
    sessions: Vec<RealPlaySession>,
    active: ActiveHandle,
    active_user: i32,
    released: Vec<i32>,
}

/// Whether a session holds a stream handle that stopping it releases.
pub open spec fn holds_handle() -> spec_fn(RealPlaySession) -> bool {
    |s: RealPlaySession| s.real_handle >= 0
}

/// The stream handle of a session.
pub open spec fn handle_of() -> spec_fn(RealPlaySession) -> i32 {
    |s: RealPlaySession| s.real_handle
}

/// Whether a session is not one of `user_id` on `channel`.
pub open spec fn other_pair(user_id: i32, channel: i32) -> spec_fn(RealPlaySession) -> bool {
    |s: RealPlaySession| !(s.user_id == user_id && s.channel == channel)
}

/// Whether a session is one of `user_id` on `channel` that holds a handle.
pub open spec fn pair_with_handle(user_id: i32, channel: i32) -> spec_fn(RealPlaySession) -> bool {
    |s: RealPlaySession| s.user_id == user_id && s.channel == channel && s.real_handle >= 0
}

/// Whether a session plays.
pub open spec fn playing() -> spec_fn(RealPlaySession) -> bool {
    |s: RealPlaySession| s.preview_active
}

proof fn lemma_map_push<A, B>(a: Seq<A>, x: A, f: spec_fn(A) -> B)
    ensures
        a.push(x).map_values(f) == a.map_values(f).push(f(x)),
{
    assert(a.push(x).map_values(f) =~= a.map_values(f).push(f(x)));
}

/// Stopping every preview releases exactly the handles that the sessions
/// hold, in the sessions' order: each session with a handle (0 or more)
/// gives its handle, and nothing else is released.
pub proof fn lemma_stop_all_releases_every_handle(ss: Seq<RealPlaySession>)
    ensures
        released_by_all(ss) == ss.filter(holds_handle()).map_values(handle_of()),
        forall|j: int|
            0 <= j < ss.len() && ss[j].real_handle >= 0 ==> released_by_all(ss).contains(
                #[trigger] ss[j].real_handle,
            ),
    decreases ss.len(),
{
    reveal(Seq::filter);
    let p = holds_handle();
    let f = handle_of();
    if ss.len() == 0 {
        assert(ss.filter(p).map_values(f) =~= Seq::<i32>::empty());
    } else {
        let init = ss.drop_last();
        lemma_stop_all_releases_every_handle(init);
        let r0 = released_by_all(init);
        if p(ss.last()) {
            assert(ss.filter(p) == init.filter(p).push(ss.last()));
            lemma_map_push(init.filter(p), ss.last(), f);
            assert(released_by_all(ss) =~= r0.push(ss.last().real_handle));
        } else {
            assert(ss.filter(p) == init.filter(p));
            assert(released_by_all(ss) =~= r0);
        }
        assert forall|j: int|
            0 <= j < ss.len() && ss[j].real_handle >= 0 implies released_by_all(ss).contains(
            #[trigger] ss[j].real_handle,
        ) by {
            if j < ss.len() - 1 {
                assert(init[j] == ss[j]);
                assert(r0.contains(init[j].real_handle));
                let k = choose|k: int| 0 <= k < r0.len() && r0[k] == init[j].real_handle;
                assert(released_by_all(ss)[k] == r0[k]);
            } else {
                assert(released_by_all(ss)[r0.len() as int] == ss[j].real_handle);
            }
        }
    }
}

/// Stopping a channel keeps exactly the sessions of the other users and
/// channels, in order, and releases exactly the handles that the sessions
/// of that channel hold, in order.
pub proof fn lemma_stop_channel_releases_its_handles(
    ss: Seq<RealPlaySession>,
    user_id: i32,
    channel: i32,
)
    ensures
        without_pair(ss, user_id, channel) == ss.filter(other_pair(user_id, channel)),
        released_of_pair(ss, user_id, channel) == ss.filter(
            pair_with_handle(user_id, channel),
        ).map_values(handle_of()),
    decreases ss.len(),
{
    reveal(Seq::filter);
    let q = other_pair(user_id, channel);
    let p = pair_with_handle(user_id, channel);
    let f = handle_of();
    if ss.len() == 0 {
        assert(ss.filter(p).map_values(f) =~= Seq::<i32>::empty());
        assert(ss.filter(q) =~= Seq::<RealPlaySession>::empty());
        assert(without_pair(ss, user_id, channel) =~= Seq::<RealPlaySession>::empty());
    } else {
        let init = ss.drop_last();
        lemma_stop_channel_releases_its_handles(init, user_id, channel);
        if q(ss.last()) {
            assert(ss.filter(q) == init.filter(q).push(ss.last()));
        } else {
            assert(ss.filter(q) == init.filter(q));
        }
        if p(ss.last()) {
            assert(ss.filter(p) == init.filter(p).push(ss.last()));
            lemma_map_push(init.filter(p), ss.last(), f);
            assert(released_of_pair(ss, user_id, channel) =~= released_of_pair(
                init,
                user_id,
                channel,
            ).push(ss.last().real_handle));
        } else {
            assert(ss.filter(p) == init.filter(p));
            assert(released_of_pair(ss, user_id, channel) =~= released_of_pair(
                init,
                user_id,
                channel,
            ));
        }
    }
}

/// The sessions counted as active are exactly those that play, and some
/// session is active exactly when that count is not 0.
pub proof fn lemma_active_count_counts_playing(ss: Seq<RealPlaySession>)
    ensures
        active_sessions(ss) == ss.filter(playing()).len(),
        active_sessions(ss) <= ss.len(),
        some_active(ss) <==> active_sessions(ss) > 0,
    decreases ss.len(),
{
    reveal(Seq::filter);
    let p = playing();
    if ss.len() > 0 {
        let init = ss.drop_last();
        lemma_active_count_counts_playing(init);
        if p(ss.last()) {
            assert(ss.filter(p) == init.filter(p).push(ss.last()));
        } else {
            assert(ss.filter(p) == init.filter(p));
        }
        if some_active(ss) && active_sessions(ss) == 0 {
            let j = choose|j: int| 0 <= j < ss.len() && (#[trigger] ss[j]).preview_active;
            if j < ss.len() - 1 {
                assert(init[j] == ss[j]);
            }
        }
        if active_sessions(ss) > 0 && !ss.last().preview_active {
            let j = choose|j: int| 0 <= j < init.len() && (#[trigger] init[j]).preview_active;
            assert(ss[j] == init[j]);
        }
        if ss.last().preview_active {
            assert(ss[ss.len() - 1].preview_active);
        }
    }
}

/// Polling releases the handle of every session whose window was closed,
/// if it holds one.
pub proof fn lemma_poll_releases_closed(ss: Seq<RealPlaySession>, open: Seq<bool>, k: int)
    requires
        open.len() == ss.len(),
        0 <= k < ss.len(),
        !kept_by_poll(ss[k], open[k]),
        ss[k].real_handle >= 0,
    ensures
        polled_released(ss, open).contains(ss[k].real_handle),
    decreases ss.len(),
{
    let n = ss.len();
    let o = open.take(n - 1);
    let rest = polled_released(ss.drop_last(), o);
    if k == n - 1 {
        assert((rest + released_by(ss.last()))[rest.len() as int] == ss[k].real_handle);
    } else {
        assert(ss.drop_last()[k] == ss[k]);
        assert(o[k] == open[k]);
        lemma_poll_releases_closed(ss.drop_last(), o, k);
        let i = choose|i: int| 0 <= i < rest.len() && rest[i] == ss[k].real_handle;
        if !kept_by_poll(ss.last(), open[n - 1]) {
            assert((rest + released_by(ss.last()))[i] == rest[i]);
        }
    }
}

/// Polling keeps nothing new: every session it keeps was among the
/// sessions, with its window open (or none).
pub proof fn lemma_poll_only_kept(ss: Seq<RealPlaySession>, open: Seq<bool>, x: RealPlaySession)
    requires
        open.len() == ss.len(),
    ensures
        polled_sessions(ss, open).contains(x) ==> exists|j: int|
            0 <= j < ss.len() && ss[j] == x && kept_by_poll(ss[j], open[j]),
    decreases ss.len(),
{
    if ss.len() > 0 {
        let n = ss.len();
        let o = open.take(n - 1);
        lemma_poll_only_kept(ss.drop_last(), o, x);
        let ps = polled_sessions(ss.drop_last(), o);
        if polled_sessions(ss, open).contains(x) {
            if ps.contains(x) {
                let j = choose|j: int|
                    0 <= j < ss.drop_last().len() && ss.drop_last()[j] == x && kept_by_poll(
                        ss.drop_last()[j],
                        o[j],
                    );
                assert(ss[j] == ss.drop_last()[j] && open[j] == o[j]);
            } else {
                assert(kept_by_poll(ss.last(), open[n - 1]));
                let m = choose|m: int| 0 <= m < ps.push(ss.last()).len() && ps.push(ss.last())[m] == x;
                if m < ps.len() {
                    assert(ps[m] == x);
                }
                assert(ss[n - 1] == x);
            }
        }
    }
}

/// The stream handle of the last preview started, with the events that
/// set it.
struct ActiveHandle {
    handle: i32,
    events: Ghost<Seq<HandleEvent>>,
}

impl ActiveHandle {
    /// The handle is the one that the latest event set.
    #[verifier::type_invariant]
    spec fn follows_events(&self) -> bool {
        self.handle == handle_after(self.events@)
    }

    fn none() -> (a: Self)
        ensures
            a.handle == -1,
            a.events@.len() == 0,
    {
        ActiveHandle { handle: -1, events: Ghost(Seq::empty()) }
    }

    fn set_started(&mut self, h: i32)
        ensures
            final(self).handle == h,
            final(self).events@ == old(self).events@.push(HandleEvent::Started(h)),
    {
        *self = ActiveHandle { handle: h, events: Ghost(self.events@.push(HandleEvent::Started(h))) };
    }

    fn reset(&mut self)
        ensures
            final(self).handle == -1,
            final(self).events@ == old(self).events@.push(HandleEvent::Reset),
    {
        *self = ActiveHandle { handle: -1, events: Ghost(self.events@.push(HandleEvent::Reset)) };
    }
}

/// An event that sets the active stream handle: a preview that started
/// under a handle, or the end of every preview (all stopped, or the last
/// session gone).
pub enum HandleEvent {
    Started(i32),
    Reset,
}

/// The active stream handle after `evs`: the handle of the latest event if
/// it is a start, and -1 after a reset or before any event.
pub open spec fn handle_after(evs: Seq<HandleEvent>) -> i32 {
    if evs.len() == 0 {
        -1i32
    } else {
        match evs.last() {
            HandleEvent::Started(h) => h,
            HandleEvent::Reset => -1i32,
        }
    }
}

impl RealPlay {
    /// The index of the first session of `user_id` on `channel`.
    fn find_session(&self, user_id: i32, channel: i32) -> (r: Option<usize>)
        ensures
            r matches Some(i) ==> i as int == session_index(self.sessions@, user_id, channel) && i
                < self.sessions@.len(),
            r is None ==> session_index(self.sessions@, user_id, channel) == -1,
    {
        let ghost ss = self.sessions@;
        let mut i: usize = 0;
        while i < self.sessions.len()
            invariant
                self.sessions@ == ss,
                0 <= i <= ss.len(),
                forall|j: int| 0 <= j < i ==> !is_session_of(#[trigger] ss[j], user_id, channel),
            decreases ss.len() - i,
        {
            if self.sessions[i].user_id == user_id && self.sessions[i].channel == channel {
                proof {
                    lemma_session_index_found(ss, user_id, channel, i as int);
                }
                return Some(i);
            }
            i = i + 1;
        }
        proof {
            lemma_session_index_absent(ss, user_id, channel);
        }
        None
    }

    /// The events that set the active handle, oldest first.
    pub closed spec fn events(&self) -> Seq<HandleEvent> {
        self.active.events@
    }

    pub closed spec fn sessions_model(&self) -> Seq<RealPlaySession> {
        self.sessions@
    }

    pub closed spec fn active_handle(&self) -> i32 {
        self.active.handle
    }

    pub closed spec fn active_user(&self) -> i32 {
        self.active_user
    }

    pub closed spec fn released_model(&self) -> Seq<i32> {
        self.released@
    }

    pub fn new() -> (r: Self)
        ensures
            no_session_no_handle(r),
            r.sessions_model().len() == 0,
            r.active_handle() == -1,
            r.active_user() == -1,
            r.released_model().len() == 0,
            r.events().len() == 0,
    {
        RealPlay {
            sessions: Vec::new(),
            active: ActiveHandle::none(),
            active_user: -1,
            released: Vec::new(),
        }
    }

    /// First step of starting a preview of `channel` for `user_id`: stops
    /// the session already open for them (it stays in the list, stopped,
    /// its handle released) and says whether the application should open a
    /// preview now (only for a logged-in user). The outcome goes to
    /// `finish_start`.
    pub fn start(&mut self, user_id: i32, channel: i32) -> (open: bool)
        ensures
            no_session_no_handle(*old(self)) ==> no_session_no_handle(*final(self)),
            open == (user_id > 0),
            final(self).active_handle() == old(self).active_handle(),
            final(self).events() == old(self).events(),
            final(self).active_user() == old(self).active_user(),
            final(self).sessions_model() == after_start(old(self).sessions_model(), user_id, channel),
            ({
                let ss = old(self).sessions_model();
                let k = session_index(ss, user_id, channel);
                final(self).released_model() == if k < 0 {
                    old(self).released_model()
                } else {
                    old(self).released_model() + released_by(ss[k])
                }
            }),
    {
        let ghost ss = self.sessions@;
        match self.find_session(user_id, channel) {
            Some(i) => {
                let mut s = self.sessions.remove(i);
                let released = s.stop();
                self.sessions.insert(i, s);
                assert(self.sessions@ =~= ss.update(i as int, stopped(ss[i as int])));
                match released {
                    Some(h) => {
                        self.released.push(h);
                    },
                    None => {},
                }
                assert(self.released@ =~= old(self).released@ + released_by(ss[i as int]));
            },
            None => {},
        }
        user_id > 0
    }

    /// Second step of starting a preview: the session that the outcome
    /// gives is added and becomes the active one; or the error comes back
    /// and nothing changes.
    pub fn finish_start(&mut self, user_id: i32, channel: i32, outcome: PreviewOutcome) -> (r:
        Result<(), String>)
        requires
            outcome matches PreviewOutcome::Playing(h) ==> h >= 0,
        ensures
            no_session_no_handle(*old(self)) ==> no_session_no_handle(*final(self)),
            r is Ok ==> channel_playing(*final(self), user_id, channel),
            r is Ok <==> (user_id > 0 && outcome is Playing),
            r is Ok ==> {
                &&& final(self).sessions_model().len() == old(self).sessions_model().len() + 1
                &&& final(self).sessions_model().take(old(self).sessions_model().len() as int)
                    == old(self).sessions_model()
                &&& final(self).sessions_model().last() == (RealPlaySession {
                    user_id,
                    channel,
                    real_handle: outcome->Playing_0,
                    preview_active: true,
                    has_window: true,
                })
                &&& final(self).active_handle() == outcome->Playing_0
                &&& final(self).events() == old(self).events().push(
                    HandleEvent::Started(outcome->Playing_0),
                )
                &&& final(self).active_user() == user_id
            },
            r matches Err(e) ==> {
                &&& e@ == if user_id <= 0 {
                    "not logged in"@
                } else {
                    match outcome {
                        PreviewOutcome::Failed(code) => real_play_error(code),
                        _ => "failed to create X11 preview window"@,
                    }
                }
                &&& final(self).sessions_model() == old(self).sessions_model()
                &&& final(self).active_handle() == old(self).active_handle()
                &&& final(self).events() == old(self).events()
                &&& final(self).active_user() == old(self).active_user()
            },
            final(self).released_model() == old(self).released_model(),
    {
        match RealPlaySession::new(user_id, channel, outcome) {
            Ok(session) => {
                let handle = session.real_handle;
                self.sessions.push(session);
                assert(self.sessions@.take(old(self).sessions@.len() as int) =~= old(self).sessions@);
                self.active.set_started(handle);
                self.active_user = user_id;
                let ghost last = self.sessions@.len() - 1;
                assert(is_session_of(self.sessions_model()[last], user_id, channel)
                    && self.sessions_model()[last].preview_active);
                Ok(())
            },
            Err(e) => Err(e),
        }
    }

    /// Stops the preview of `channel` for `user_id`: every session of
    /// theirs leaves the list and its handle is released; the other
    /// sessions stay, in their order. With no session left, no preview is
    /// active any more.
    pub fn stop_channel(&mut self, user_id: i32, channel: i32)
        ensures
            no_session_no_handle(*final(self)),
            final(self).sessions_model() == without_pair(old(self).sessions_model(), user_id, channel),
            final(self).released_model() == old(self).released_model() + released_of_pair(
                old(self).sessions_model(),
                user_id,
                channel,
            ),
            forall|j: int|
                0 <= j < final(self).sessions_model().len() ==> !is_session_of(
                    #[trigger] final(self).sessions_model()[j],
                    user_id,
                    channel,
                ),
            !channel_playing(*final(self), user_id, channel),
            final(self).active_handle() == if final(self).sessions_model().len() == 0 {
                -1i32
            } else {
                old(self).active_handle()
            },
            final(self).events() == if final(self).sessions_model().len() == 0 {
                old(self).events().push(HandleEvent::Reset)
            } else {
                old(self).events()
            },
            final(self).active_user() == old(self).active_user(),
    {
        let ghost ss = self.sessions@;
        let n = self.sessions.len();
        let mut old_sessions: Vec<RealPlaySession> = Vec::new();
        std::mem::swap(&mut old_sessions, &mut self.sessions);
        assert(old_sessions@.skip(0) =~= ss);
        assert(ss.take(0) =~= Seq::<RealPlaySession>::empty());
        assert(self.sessions@ =~= without_pair(ss.take(0), user_id, channel));
        assert(self.released@ =~= old(self).released@ + released_of_pair(ss.take(0), user_id, channel));
        let mut i: usize = 0;
        while i < n
            invariant
                n == ss.len(),
                0 <= i <= n,
                old_sessions@ == ss.skip(i as int),
                self.sessions@ == without_pair(ss.take(i as int), user_id, channel),
                self.released@ == old(self).released@ + released_of_pair(
                    ss.take(i as int),
                    user_id,
                    channel,
                ),
                self.active == old(self).active,
                self.active_user == old(self).active_user,
            decreases n - i,
        {
            let mut s = old_sessions.remove(0);
            assert(s == ss[i as int]);
            assert(old_sessions@ =~= ss.skip(i + 1));
            assert(ss.take(i + 1).drop_last() =~= ss.take(i as int));
            assert(ss.take(i + 1).last() == s);
            if s.user_id == user_id && s.channel == channel {
                let ghost before = s;
                let released = s.stop();
                match released {
                    Some(h) => {
                        self.released.push(h);
                    },
                    None => {},
                }
                assert(self.released@ =~= old(self).released@ + released_of_pair(
                    ss.take(i + 1),
                    user_id,
                    channel,
                ));
            } else {
                self.sessions.push(s);
            }
            i = i + 1;
        }
        assert(ss.take(n as int) =~= ss);
        proof {
            lemma_without_pair_none(ss, user_id, channel);
        }
        if self.sessions.len() == 0 {
            self.active.reset();
        }
    }

    /// Stops every preview: all sessions leave, their handles are released
    /// in order, and no preview is active.
    pub fn stop_all(&mut self)
        ensures
            no_session_no_handle(*final(self)),
            forall|u: i32, c: i32| !channel_playing(*final(self), u, c),
            final(self).sessions_model().len() == 0,
            final(self).released_model() == old(self).released_model() + released_by_all(
                old(self).sessions_model(),
            ),
            final(self).active_handle() == -1,
            final(self).events() == old(self).events().push(HandleEvent::Reset),
            final(self).active_user() == old(self).active_user(),
    {
        let ghost ss = self.sessions@;
        assert(ss.take(0) =~= Seq::<RealPlaySession>::empty());
        assert(old(self).released@ + released_by_all(ss.take(0)) =~= old(self).released@);
        let n = self.sessions.len();
        for i in 0..n
            invariant
                n == ss.len(),
                self.sessions@ == ss,
                self.released@ == old(self).released@ + released_by_all(ss.take(i as int)),
                self.active_user == old(self).active_user,
                self.active == old(self).active,
        {
            let h = self.sessions[i].real_handle;
            if h >= 0 {
                self.released.push(h);
            }
            assert(ss.take(i + 1).drop_last() =~= ss.take(i as int));
            assert(self.released@ =~= old(self).released@ + released_by_all(ss.take(i + 1)));
        }
        assert(ss.take(ss.len() as int) =~= ss);
        self.sessions.clear();
        self.active.reset();
    }

    /// Handles the preview windows' events: `window_open[i]` tells whether
    /// the window of the i-th session is still open. Sessions whose window
    /// was closed stop and leave the list; with none left, no preview is
    /// active.
    pub fn poll_window_events(&mut self, window_open: &[bool])
        requires
            window_open@.len() == old(self).sessions_model().len(),
        ensures
            no_session_no_handle(*final(self)),
            final(self).sessions_model() == polled_sessions(
                old(self).sessions_model(),
                window_open@,
            ),
            final(self).released_model() == old(self).released_model() + polled_released(
                old(self).sessions_model(),
                window_open@,
            ),
            final(self).active_handle() == if final(self).sessions_model().len() == 0 {
                -1i32
            } else {
                old(self).active_handle()
            },
            final(self).events() == if final(self).sessions_model().len() == 0 {
                old(self).events().push(HandleEvent::Reset)
            } else {
                old(self).events()
            },
            final(self).active_user() == old(self).active_user(),
    {
        let ghost ss = self.sessions@;
        let ghost open = window_open@;
        let n = self.sessions.len();
        let mut old_sessions: Vec<RealPlaySession> = Vec::new();
        std::mem::swap(&mut old_sessions, &mut self.sessions);
        assert(old_sessions@.skip(0) =~= ss);
        assert(ss.take(0) =~= Seq::<RealPlaySession>::empty());
        assert(open.take(0) =~= Seq::<bool>::empty());
        assert(self.sessions@ =~= polled_sessions(ss.take(0), open.take(0)));
        assert(self.released@ =~= old(self).released@ + polled_released(ss.take(0), open.take(0)));
        let mut i: usize = 0;
        while i < n
            invariant
                n == ss.len(),
                open.len() == n,
                window_open@ == open,
                0 <= i <= n,
                old_sessions@ == ss.skip(i as int),
                self.sessions@ == polled_sessions(ss.take(i as int), open.take(i as int)),
                self.released@ == old(self).released@ + polled_released(
                    ss.take(i as int),
                    open.take(i as int),
                ),
                self.active == old(self).active,
                self.active_user == old(self).active_user,
            decreases n - i,
        {
            let mut s = old_sessions.remove(0);
            assert(s == ss[i as int]);
            assert(old_sessions@ =~= ss.skip(i + 1));
            let ghost before = s;
            let (keep, released) = s.poll_window_events(window_open[i]);
            assert(ss.take(i + 1).drop_last() =~= ss.take(i as int));
            assert(open.take(i + 1).take(i as int) =~= open.take(i as int));
            assert(ss.take(i + 1).last() == before);
            assert(open.take(i + 1)[i as int] == open[i as int]);
            if keep {
                self.sessions.push(s);
            } else {
                match released {
                    Some(h) => {
                        self.released.push(h);
                    },
                    None => {},
                }
                assert(self.released@ =~= old(self).released@ + polled_released(
                    ss.take(i + 1),
                    open.take(i + 1),
                ));
            }
            i = i + 1;
        }
        assert(ss.take(n as int) =~= ss);
        assert(open.take(n as int) =~= open);
        if self.sessions.len() == 0 {
            self.active.reset();
        }
    }

    /// Hands the released stream handles to the application (which stops
    /// the streams and closes the windows), oldest first.
    pub fn take_released(&mut self) -> (hs: Vec<i32>)
        ensures
            no_session_no_handle(*old(self)) ==> no_session_no_handle(*final(self)),
            hs@ == old(self).released_model(),
            final(self).released_model().len() == 0,
            final(self).sessions_model() == old(self).sessions_model(),
            final(self).active_handle() == old(self).active_handle(),
            final(self).events() == old(self).events(),
            final(self).active_user() == old(self).active_user(),
    {
        let mut hs = Vec::new();
        std::mem::swap(&mut hs, &mut self.released);
        hs
    }

    /// Number of active sessions: those that play.
    pub fn active_count(&self) -> (n: usize)
        ensures
            n == active_sessions(self.sessions_model()),
    {
        let ghost ss = self.sessions@;
        let mut n: usize = 0;
        let mut i: usize = 0;
        assert(ss.take(0) =~= Seq::<RealPlaySession>::empty());
        while i < self.sessions.len()
            invariant
                ss == self.sessions@,
                0 <= i <= ss.len(),
                n == active_sessions(ss.take(i as int)),
                n <= i,
            decreases ss.len() - i,
        {
            assert(ss.take(i + 1).drop_last() =~= ss.take(i as int));
            if self.sessions[i].preview_active {
                n = n + 1;
            }
            i = i + 1;
        }
        assert(ss.take(ss.len() as int) =~= ss);
        n
    }

    /// Whether at least one session is active.
    pub fn preview_active(&self) -> (b: bool)
        ensures
            b == some_active(self.sessions_model()),
    {
        let mut i: usize = 0;
        while i < self.sessions.len()
            invariant
                0 <= i <= self.sessions@.len(),
                forall|j: int| 0 <= j < i ==> !(#[trigger] self.sessions@[j]).preview_active,
            decreases self.sessions@.len() - i,
        {
            if self.sessions[i].preview_active {
                assert(self.sessions_model()[i as int].preview_active);
                return true;
            }
            i = i + 1;
        }
        false
    }

    /// Whether `channel` of `user_id` has a playing session.
    pub fn is_channel_active(&self, user_id: i32, channel: i32) -> (b: bool)
        ensures
            b == channel_playing(*self, user_id, channel),
    {
        let mut i: usize = 0;
        while i < self.sessions.len()
            invariant
                0 <= i <= self.sessions@.len(),
                forall|j: int|
                    0 <= j < i ==> !(is_session_of(#[trigger] self.sessions@[j], user_id, channel)
                        && self.sessions@[j].preview_active),
            decreases self.sessions@.len() - i,
        {
            let s = &self.sessions[i];
            if s.user_id == user_id && s.channel == channel && s.preview_active {
                assert(is_session_of(self.sessions_model()[i as int], user_id, channel)
                    && self.sessions_model()[i as int].preview_active);
                return true;
            }
            i = i + 1;
        }
        false
    }

    /// The listed sessions, in the order they were started (one that a
    /// restart of its channel stopped stays listed, inactive).
    pub fn sessions(&self) -> (ss: &[RealPlaySession])
        ensures
            ss@ == self.sessions_model(),
    {
        self.sessions.as_slice()
    }
}

impl Default for RealPlay {
    fn default() -> (r: Self)
        ensures
            no_session_no_handle(r),
            r.sessions_model().len() == 0,
            r.active_handle() == -1,
            r.active_user() == -1,
            r.released_model().len() == 0,
            r.events().len() == 0,
    {
        RealPlay::new()
    }
}

/// With no session open, no preview handle is active. Every operation of
/// `RealPlay` keeps this.
pub open spec fn no_session_no_handle(rp: RealPlay) -> bool {
    rp.sessions_model().len() == 0 ==> rp.active_handle() == -1
}

/// Whether `channel` of `user_id` has a session that plays.
pub open spec fn channel_playing(rp: RealPlay, user_id: i32, channel: i32) -> bool {
    exists|j: int|
        0 <= j < rp.sessions_model().len() && is_session_of(
            #[trigger] rp.sessions_model()[j],
            user_id,
            channel,
        ) && rp.sessions_model()[j].preview_active
}

/// Closing no window changes nothing: with every window open, polling
/// keeps all sessions as they are and releases nothing.
pub proof fn lemma_poll_all_open(ss: Seq<RealPlaySession>, open: Seq<bool>)
    requires
        open.len() == ss.len(),
        forall|k: int| 0 <= k < open.len() ==> #[trigger] open[k],
    ensures
        polled_sessions(ss, open) == ss,
        polled_released(ss, open) == Seq::<i32>::empty(),
    decreases ss.len(),
{
    if ss.len() > 0 {
        let o = open.take(ss.len() - 1);
        assert forall|k: int| 0 <= k < o.len() implies #[trigger] o[k] by {
            assert(o[k] == open[k]);
        }
        lemma_poll_all_open(ss.drop_last(), o);
        assert(open[ss.len() - 1]);
        assert(ss.drop_last().push(ss.last()) =~= ss);
    }
}

/// Closing one window leaves the other sessions alone: every session that
/// polling keeps (its window open, or none) is still there, unchanged.
pub proof fn lemma_poll_keeps_others(ss: Seq<RealPlaySession>, open: Seq<bool>, k: int)
    requires
        open.len() == ss.len(),
        0 <= k < ss.len(),
        kept_by_poll(ss[k], open[k]),
    ensures
        polled_sessions(ss, open).contains(ss[k]),
    decreases ss.len(),
{
    let n = ss.len();
    let rest = polled_sessions(ss.drop_last(), open.take(n - 1));
    if k == n - 1 {
        assert(rest.push(ss.last())[rest.len() as int] == ss[k]);
    } else {
        assert(ss.drop_last()[k] == ss[k]);
        assert(open.take(n - 1)[k] == open[k]);
        lemma_poll_keeps_others(ss.drop_last(), open.take(n - 1), k);
        let j = choose|j: int| 0 <= j < rest.len() && rest[j] == ss[k];
        if kept_by_poll(ss.last(), open[n - 1]) {
            assert(rest.push(ss.last())[j] == ss[k]);
        }
    }
}

proof fn lemma_session_index_bounds(ss: Seq<RealPlaySession>, user_id: i32, channel: i32)
    ensures
        -1 <= session_index(ss, user_id, channel) < ss.len(),
        session_index(ss, user_id, channel) >= 0 ==> is_session_of(
            ss[session_index(ss, user_id, channel)],
            user_id,
            channel,
        ),
    decreases ss.len(),
{
    if ss.len() > 0 && !is_session_of(ss[0], user_id, channel) {
        lemma_session_index_bounds(ss.drop_first(), user_id, channel);
        let r = session_index(ss.drop_first(), user_id, channel);
        if r >= 0 {
            assert(ss.drop_first()[r] == ss[r + 1]);
        }
    }
}

/// Starting a preview adds a session without closing the others: every
/// session of another user or channel stays as it was, and none leaves.
pub proof fn lemma_start_leaves_others(ss: Seq<RealPlaySession>, user_id: i32, channel: i32)
    ensures
        after_start(ss, user_id, channel).len() == ss.len(),
        forall|j: int|
            0 <= j < ss.len() && !is_session_of(ss[j], user_id, channel) ==> #[trigger] after_start(
                ss,
                user_id,
                channel,
            )[j] == ss[j],
{
    lemma_session_index_bounds(ss, user_id, channel);
}

/// No session of `user_id` on `channel` is among those `without_pair`
/// keeps, and every other session is.
proof fn lemma_without_pair_none(ss: Seq<RealPlaySession>, user_id: i32, channel: i32)
    ensures
        forall|j: int|
            0 <= j < without_pair(ss, user_id, channel).len() ==> !is_session_of(
                #[trigger] without_pair(ss, user_id, channel)[j],
                user_id,
                channel,
            ),
    decreases ss.len(),
{
    if ss.len() > 0 {
        lemma_without_pair_none(ss.drop_last(), user_id, channel);
        let rest = without_pair(ss.drop_last(), user_id, channel);
        if !is_session_of(ss.last(), user_id, channel) {
            assert forall|j: int| 0 <= j < rest.len() + 1 implies !is_session_of(
                #[trigger] rest.push(ss.last())[j],
                user_id,
                channel,
            ) by {
                if j < rest.len() {
                    assert(rest.push(ss.last())[j] == rest[j]);
                }
            }
        }
    }
}

/// Stopping a channel leaves the other channels alone: a session of
/// another user or channel is kept, and stays playing if it played.
pub proof fn lemma_stop_channel_keeps_others(
    ss: Seq<RealPlaySession>,
    user_id: i32,
    channel: i32,
    k: int,
)
    requires
        0 <= k < ss.len(),
        !is_session_of(ss[k], user_id, channel),
    ensures
        without_pair(ss, user_id, channel).contains(ss[k]),
    decreases ss.len(),
{
    let n = ss.len();
    let rest = without_pair(ss.drop_last(), user_id, channel);
    if k == n - 1 {
        assert(rest.push(ss.last())[rest.len() as int] == ss[k]);
    } else {
        assert(ss.drop_last()[k] == ss[k]);
        lemma_stop_channel_keeps_others(ss.drop_last(), user_id, channel, k);
        let j = choose|j: int| 0 <= j < rest.len() && rest[j] == ss[k];
        if !is_session_of(ss.last(), user_id, channel) {
            assert(rest.push(ss.last())[j] == ss[k]);
        }
    }
}

/// The stream handle of the last preview started, -1 when none plays:
/// the handle of the latest start, unless every preview ended after it.
pub fn active_real_handle(rp: &RealPlay) -> (h: i32)
    ensures
        h == rp.active_handle(),
        h == handle_after(rp.events()),
{
    proof {
        use_type_invariant(&rp.active);
    }
    rp.active.handle
}

impl Module for RealPlay {
    fn id(&self) -> (s: &'static str)
        ensures
            s@ == "realplay"@,
    {
        "realplay"
    }

    fn label(&self) -> (s: &'static str)
        ensures
            s@ == "Preview"@,
    {
        "Preview"
    }

    fn group(&self) -> (g: ModuleGroup)
        ensures
            g == ModuleGroup::RealPlay,
    {
        ModuleGroup::RealPlay
    }
}

} // verus!

use vstd::prelude::*;
use crate::counter::{mean_of, RunningCounter};
use crate::feed::{frame_reading, record_frame, Extracted, Feed};
use crate::sign::{price_message, price_text, signature_valid, KeyPair};

verus! {

/// What one session reported: its feed, its average in units (zero when it
/// recorded no price) and the signature of that average's text.
pub struct SessionResult {
    pub feed: Feed,
    pub average: u64,
    pub signature: Vec<u8>,
}

/// Ends a session: takes the mean of its prices (zero for none), signs its
/// text with a fresh key pair and hands back the result with the public key.
pub fn finish_session(counter: &RunningCounter, feed: Feed) -> (r: (SessionResult, Vec<u8>))
    requires
        counter.wf(),
    ensures
        r.0.feed == feed,
        r.0.average == mean_of(counter.prices()),
        signature_valid(r.1@, price_message(r.0.average as nat), r.0.signature@),
{
    let average = match counter.calculate_average() {
        Some(m) => m,
        None => 0,
    };
    let keys = KeyPair::generate_key_pair();
    let message = price_text(average);
    let signature = keys.sign_message(&message);
    let public = keys.public().clone();
    assert(public@ == keys.public_key());
    (SessionResult { feed, average, signature }, public)
}

/// Where a session stands.
#[derive(Clone, Copy, Debug, PartialEq, Eq, Structural)]
pub enum Phase {
    /// The connection is being opened.
    Connecting,
    /// Frames are read into the counter.
    Streaming,
    /// The duration has elapsed; the connection is being closed and frames
    /// that still arrive are not counted.
    Draining,
    /// The result has been handed out.
    Finalized,
}

/// One feed's session: its phase and the prices it accepted while streaming.
pub struct Session {
    feed: Feed,
    phase: Phase,
    counter: RunningCounter,
}

impl Session {
    pub closed spec fn feed_spec(&self) -> Feed {
        self.feed
    }

    pub closed spec fn phase_spec(&self) -> Phase {
        self.phase
    }

    pub closed spec fn prices(&self) -> Seq<u64> {
        self.counter.prices()
    }

    pub closed spec fn frames(&self) -> Seq<Seq<char>> {
        self.counter.frames()
    }

    pub closed spec fn wf(&self) -> bool {
        self.counter.wf()
    }

    /// A session of the feed `f`, connecting, with no price yet.
    pub fn new(f: Feed) -> (r: Session)
        ensures
            r.wf(),
            r.feed_spec() == f,
            r.phase_spec() == Phase::Connecting,
            r.prices() == Seq::<u64>::empty(),
            r.frames() == Seq::<Seq<char>>::empty(),
    {
        Session { feed: f, phase: Phase::Connecting, counter: RunningCounter::new() }
    }

    pub fn feed(&self) -> (r: Feed)
        ensures
            r == self.feed_spec(),
    {
        self.feed
    }

    pub fn phase(&self) -> (r: Phase)
        ensures
            r == self.phase_spec(),
    {
        self.phase
    }

    /// The connection is open (and the subscription, if any, sent): frames
    /// count from now on.
    pub fn start_streaming(&mut self)
        requires
            old(self).wf(),
            old(self).phase_spec() == Phase::Connecting,
        ensures
            final(self).wf(),
            final(self).phase_spec() == Phase::Streaming,
            final(self).feed_spec() == old(self).feed_spec(),
            final(self).prices() == old(self).prices(),
            final(self).frames() == old(self).frames(),
    {
        self.phase = Phase::Streaming;
    }

    /// One text frame arrived. While streaming it is read into the counter
    /// (`Some` of what it gave); in any other phase it is ignored (`None`).
    pub fn on_frame(&mut self, text: String) -> (r: Option<Extracted>)
        requires
            old(self).wf(),
        ensures
            final(self).wf(),
            final(self).phase_spec() == old(self).phase_spec(),
            final(self).feed_spec() == old(self).feed_spec(),
            old(self).phase_spec() == Phase::Streaming ==> r == Some(
                frame_reading(old(self).feed_spec(), text@),
            ),
            old(self).phase_spec() != Phase::Streaming ==> r is None,
            match r {
                Some(Extracted::Price(v)) => final(self).prices() == old(self).prices().push(v)
                    && final(self).frames() == old(self).frames().push(text@),
                _ => final(self).prices() == old(self).prices() && final(self).frames()
                    == old(self).frames(),
            },
    {
        if self.phase == Phase::Streaming {
            Some(record_frame(&mut self.counter, self.feed, text))
        } else {
            None
        }
    }

    /// The duration has elapsed: no further frame counts.
    pub fn on_timer(&mut self)
        requires
            old(self).wf(),
            old(self).phase_spec() != Phase::Finalized,
        ensures
            final(self).wf(),
            final(self).phase_spec() == Phase::Draining,
            final(self).feed_spec() == old(self).feed_spec(),
            final(self).prices() == old(self).prices(),
            final(self).frames() == old(self).frames(),
    {
        self.phase = Phase::Draining;
    }

    /// The recorded frames, one per line.
    pub fn data_points(&self) -> (r: String)
        requires
            self.wf(),
        ensures
            r@ == crate::counter::joined(self.frames()),
    {
        self.counter.data_points()
    }

    /// Ends the session: its result, signed with a fresh key pair, and that
    /// pair's public key.
    pub fn finish(&mut self) -> (r: (SessionResult, Vec<u8>))
        requires
            old(self).wf(),
            old(self).phase_spec() == Phase::Draining,
        ensures
            final(self).wf(),
            final(self).phase_spec() == Phase::Finalized,
            final(self).prices() == old(self).prices(),
            final(self).frames() == old(self).frames(),
            r.0.feed == old(self).feed_spec(),
            r.0.average == mean_of(old(self).prices()),
            signature_valid(r.1@, price_message(r.0.average as nat), r.0.signature@),
    {
        self.phase = Phase::Finalized;
        finish_session(&self.counter, self.feed)
    }
}

} // verus!

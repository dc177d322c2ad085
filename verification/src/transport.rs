//! The two capabilities through which frames leave and reach a connection,
//! and in-memory implementations of both.

use vstd::prelude::*;
use crate::error::{HttpError, HttpErrorView};
use crate::frame::{FrameKind, FrameView, HttpFrame};

verus! {

/// The views of a list of frames.
pub open spec fn frames_view(frames: Seq<HttpFrame>) -> Seq<FrameView> {
    frames.map_values(|f: HttpFrame| f@)
}

/// Something that accepts frames for delivery to the peer.
///
/// The contract of `send_frame` is a demand on every implementation: what is
/// proved about a connection holds for senders that meet it.
pub trait SendFrame {
    /// The frames accepted so far, oldest first.
    spec fn sent(&self) -> Seq<FrameView>;

    /// The sender never refuses a frame.
    spec fn reliable(&self) -> bool;

    /// Hands one frame over. An accepted frame is added to `sent`; a refused
    /// one leaves `sent` as it was.
    fn send_frame(&mut self, frame: HttpFrame) -> (res: Result<(), HttpError>)
        ensures
            res is Ok ==> final(self).sent() == old(self).sent().push(frame@),
            res is Err ==> final(self).sent() == old(self).sent(),
            old(self).reliable() ==> res is Ok && final(self).reliable(),
    ;
}

/// Something that yields the frames the peer has sent, one at a time.
///
/// The contracts of its methods are a demand on every implementation: what
/// is proved about a connection holds for receivers that meet them.
pub trait ReceiveFrame {
    /// The frames that have not been consumed yet, in arrival order.
    spec fn incoming(&self) -> Seq<FrameView>;

    /// The receiver never fails while a frame is left.
    spec fn reliable(&self) -> bool;

    /// The type of the next frame, which stays unconsumed.
    fn peek_kind(&mut self) -> (res: Result<FrameKind, HttpError>)
        ensures
            final(self).incoming() == old(self).incoming(),
            final(self).reliable() == old(self).reliable(),
            res is Ok ==> old(self).incoming().len() > 0 && res.unwrap() == old(
                self,
            ).incoming()[0].kind(),
            old(self).reliable() && old(self).incoming().len() > 0 ==> res is Ok,
    ;

    /// Consumes and returns the next frame. A failure consumes nothing.
    fn recv_frame(&mut self) -> (res: Result<HttpFrame, HttpError>)
        ensures
            final(self).reliable() == old(self).reliable(),
            res is Ok ==> old(self).incoming().len() > 0 && res.unwrap()@ == old(
                self,
            ).incoming()[0] && final(self).incoming() == old(self).incoming().drop_first(),
            res is Err ==> final(self).incoming() == old(self).incoming(),
            old(self).reliable() && old(self).incoming().len() > 0 ==> res is Ok,
    ;
}

/// A sender that keeps every frame in memory and never refuses one.
pub struct FrameLog {
    pub sent: Vec<HttpFrame>,
}

impl FrameLog {
    /// A log without frames.
    pub fn new() -> (log: FrameLog)
        ensures
            log.sent@.len() == 0,
            log.sent() == Seq::<FrameView>::empty(),
            log.reliable(),
    {
        let log = FrameLog { sent: Vec::new() };
        proof {
            assert(frames_view(log.sent@) =~= Seq::empty());
        }
        log
    }
}

impl SendFrame for FrameLog {
    open spec fn sent(&self) -> Seq<FrameView> {
        frames_view(self.sent@)
    }

    open spec fn reliable(&self) -> bool {
        true
    }

    /// Keeps the frame. This never fails.
    fn send_frame(&mut self, frame: HttpFrame) -> (res: Result<(), HttpError>)
        ensures
            res is Ok,
    {
        self.sent.push(frame);
        proof {
            assert(frames_view(self.sent@) =~= frames_view(old(self).sent@).push(frame@));
        }
        Ok(())
    }
}

/// A receiver that yields the frames of a list held in memory, and fails
/// only when the list is used up.
pub struct FrameQueue {
    pub recv_list: Vec<HttpFrame>,
}

impl FrameQueue {
    /// A receiver that will yield `frames` in order.
    pub fn new(frames: Vec<HttpFrame>) -> (queue: FrameQueue)
        ensures
            queue.recv_list == frames,
            queue.incoming() == frames_view(frames@),
            queue.reliable(),
    {
        FrameQueue { recv_list: frames }
    }
}

impl ReceiveFrame for FrameQueue {
    open spec fn incoming(&self) -> Seq<FrameView> {
        frames_view(self.recv_list@)
    }

    open spec fn reliable(&self) -> bool {
        true
    }

    /// The type of the first frame left; a transport failure when none is.
    fn peek_kind(&mut self) -> (res: Result<FrameKind, HttpError>)
        ensures
            res is Ok <==> old(self).recv_list@.len() > 0,
            res is Err ==> res.unwrap_err()@ == HttpErrorView::TransportFailure,
            final(self).recv_list == old(self).recv_list,
    {
        if self.recv_list.len() == 0 {
            Err(HttpError::TransportFailure)
        } else {
            Ok(self.recv_list[0].kind())
        }
    }

    /// Takes the first frame off the list; a transport failure when none
    /// is left.
    fn recv_frame(&mut self) -> (res: Result<HttpFrame, HttpError>)
        ensures
            res is Ok <==> old(self).recv_list@.len() > 0,
            res is Ok ==> res.unwrap() == old(self).recv_list@[0] && final(self).recv_list@ == old(
                self,
            ).recv_list@.drop_first(),
            res is Err ==> res.unwrap_err()@ == HttpErrorView::TransportFailure,
            res is Err ==> final(self).recv_list == old(self).recv_list,
    {
        if self.recv_list.len() == 0 {
            Err(HttpError::TransportFailure)
        } else {
            let frame = self.recv_list.remove(0);
            proof {
                assert(frames_view(self.recv_list@) =~= frames_view(old(self).recv_list@).drop_first());
            }
            Ok(frame)
        }
    }
}

} // verus!

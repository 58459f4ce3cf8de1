//! The event stream between the scan and its consumer, and the sink that
//! folds it into a final result list.
//!
//! A scan delivers any number of match and non-fatal-error events and then
//! one explicit end-of-stream event.  A sink consumes them one at a time;
//! once it has seen the end of the stream its state is complete and no
//! further event changes it.

use vstd::prelude::*;

use crate::search::{AppInfo, AppInfoView};

verus! {

/// One event of a scan: a match, a non-fatal per-file failure, or the
/// end-of-stream signal.
pub enum Message {
    Info { appname: String, bucket_name: String, details: AppInfo },
    Failure { path: String, message: String },
    Close,
}

/// Mathematical model of [`Message`].
pub enum MessageView {
    Info { appname: Seq<char>, bucket_name: Seq<char>, details: AppInfoView },
    Failure { path: Seq<char>, message: Seq<char> },
    Close,
}

impl DeepView for Message {
    type V = MessageView;

    open spec fn deep_view(&self) -> MessageView {
        match self {
            Message::Info { appname, bucket_name, details } => MessageView::Info {
                appname: appname@,
                bucket_name: bucket_name@,
                details: details.deep_view(),
            },
            Message::Failure { path, message } => MessageView::Failure {
                path: path@,
                message: message@,
            },
            Message::Close => MessageView::Close,
        }
    }
}

/// One non-fatal per-file failure, named by the path that failed.
pub struct ScanError {
    pub path: String,
    pub message: String,
}

/// Mathematical model of [`ScanError`].
pub struct ScanErrorView {
    pub path: Seq<char>,
    pub message: Seq<char>,
}

impl DeepView for ScanError {
    type V = ScanErrorView;

    open spec fn deep_view(&self) -> ScanErrorView {
        ScanErrorView { path: self.path@, message: self.message@ }
    }
}

/// A sink that buffers a scan's events: matches in arrival order, errors
/// in arrival order, and whether the end of the stream has been seen.
///
/// The state machine is `Scanning -> (match | error)* -> Complete`:
/// while `done` is false each event is folded in, and once `done` is true
/// the state is terminal and every further event leaves it unchanged.
pub struct SinkState {
    pub matches: Vec<AppInfo>,
    pub errors: Vec<ScanError>,
    pub done: bool,
}

/// Mathematical model of [`SinkState`].
pub struct SinkView {
    pub matches: Seq<AppInfoView>,
    pub errors: Seq<ScanErrorView>,
    pub done: bool,
}

impl DeepView for SinkState {
    type V = SinkView;

    open spec fn deep_view(&self) -> SinkView {
        SinkView {
            matches: self.matches.deep_view(),
            errors: self.errors.deep_view(),
            done: self.done,
        }
    }
}

/// The sink before any event has arrived.
pub open spec fn empty_sink() -> SinkView {
    SinkView { matches: Seq::empty(), errors: Seq::empty(), done: false }
}

/// How one event changes a sink: a complete sink is terminal, and until
/// then a match is buffered, a failure is buffered, and the end-of-stream
/// event completes the sink.
pub open spec fn sink_step(s: SinkView, m: MessageView) -> SinkView {
    if s.done {
        s
    } else {
        match m {
            MessageView::Info { appname, bucket_name, details } => SinkView {
                matches: s.matches.push(details),
                errors: s.errors,
                done: false,
            },
            MessageView::Failure { path, message } => SinkView {
                matches: s.matches,
                errors: s.errors.push(ScanErrorView { path, message }),
                done: false,
            },
            MessageView::Close => SinkView { matches: s.matches, errors: s.errors, done: true },
        }
    }
}

/// A sink after consuming a whole event sequence, first event first.
pub open spec fn sink_run(s: SinkView, msgs: Seq<MessageView>) -> SinkView
    decreases msgs.len(),
{
    if msgs.len() == 0 {
        s
    } else {
        sink_run(sink_step(s, msgs[0]), msgs.drop_first())
    }
}

/// Consuming one more event equals consuming the rest and then that
/// event.
pub proof fn lemma_sink_run_snoc(s: SinkView, msgs: Seq<MessageView>, m: MessageView)
    ensures
        sink_run(s, msgs.push(m)) == sink_step(sink_run(s, msgs), m),
    decreases msgs.len(),
{
    if msgs.len() == 0 {
        assert(msgs.push(m)[0] == m);
        assert(msgs.push(m).drop_first() =~= Seq::<MessageView>::empty());
        assert(sink_run(s, msgs.push(m)) == sink_run(
            sink_step(s, m),
            Seq::<MessageView>::empty(),
        ));
        assert(sink_run(sink_step(s, m), Seq::<MessageView>::empty()) == sink_step(s, m));
        assert(sink_run(s, msgs) == s);
    } else {
        assert(msgs.push(m)[0] == msgs[0]);
        assert(msgs.push(m).drop_first() =~= msgs.drop_first().push(m));
        assert(sink_run(s, msgs.push(m)) == sink_run(
            sink_step(s, msgs[0]),
            msgs.drop_first().push(m),
        ));
        lemma_sink_run_snoc(sink_step(s, msgs[0]), msgs.drop_first(), m);
        assert(sink_run(s, msgs) == sink_run(sink_step(s, msgs[0]), msgs.drop_first()));
    }
}

impl SinkState {
    /// A sink that has seen no event yet.
    pub fn new() -> (s: SinkState)
        ensures
            s.matches@ =~= Seq::<AppInfo>::empty(),
            s.errors@ =~= Seq::<ScanError>::empty(),
            !s.done,
    {
        SinkState { matches: Vec::new(), errors: Vec::new(), done: false }
    }

    /// Folds one event in.  A match is appended to the match list, a
    /// failure to the error list, and the end-of-stream event completes
    /// the sink; a complete sink ignores every further event.
    pub fn handle(&mut self, msg: Message)
        ensures
            final(self).deep_view() == sink_step(old(self).deep_view(), msg.deep_view()),
            old(self).done ==> *final(self) == *old(self),
            !old(self).done ==> match msg {
                Message::Info { appname, bucket_name, details } => {
                    &&& final(self).matches@ == old(self).matches@.push(details)
                    &&& final(self).errors@ == old(self).errors@
                    &&& !final(self).done
                },
                Message::Failure { path, message } => {
                    &&& final(self).matches@ == old(self).matches@
                    &&& final(self).errors@ == old(self).errors@.push(
                        ScanError { path, message },
                    )
                    &&& !final(self).done
                },
                Message::Close => {
                    &&& final(self).matches@ == old(self).matches@
                    &&& final(self).errors@ == old(self).errors@
                    &&& final(self).done
                },
            },
    {
        if self.done {
            return ;
        }
        match msg {
            Message::Info { appname: _, bucket_name: _, details } => {
                let ghost pre = self.matches.deep_view();
                let ghost d = details.deep_view();
                self.matches.push(details);
                proof {
                    assert(self.matches.deep_view() =~= pre.push(d));
                }
            },
            Message::Failure { path, message } => {
                let ghost pre = self.errors.deep_view();
                let ghost pv = path@;
                let ghost mv = message@;
                self.errors.push(ScanError { path, message });
                proof {
                    assert(self.errors.deep_view() =~= pre.push(
                        ScanErrorView { path: pv, message: mv },
                    ));
                }
            },
            Message::Close => {
                self.done = true;
            },
        }
    }
}

} // verus!

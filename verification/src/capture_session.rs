//! The life of a screen capture: which results still count, and what is captured.
use crate::measure;
use vstd::prelude::*;

verus! {

/// The capture of one display at a time. Results that arrive late are told apart by
/// the number of the session that asked for them.
#[derive(Debug)]
pub struct CaptureSession {
    pub epoch: u64,
    pub display: Option<u32>,
    pub width: u64,
    pub height: u64,
    /// Counts the frames, going round at the end.
    pub sequence: u64,
    pub has_frame: bool,
    pub error: Option<String>,
}

/// Whether a session shows an error with this text.
pub open spec fn shows_error(session: CaptureSession, text: Seq<char>) -> bool {
    session.error matches Some(error) && error@ == text
}

impl CaptureSession {
    pub open spec fn stopped(self) -> Self {
        CaptureSession {
            epoch: measure::following(self.epoch),
            display: None,
            has_frame: false,
            error: None,
            ..self
        }
    }

    pub fn new() -> (session: Self)
        ensures
            session == (CaptureSession {
                epoch: 0,
                display: None,
                width: 0,
                height: 0,
                sequence: 0,
                has_frame: false,
                error: None,
            }),
    {
        CaptureSession {
            epoch: 0,
            display: None,
            width: 0,
            height: 0,
            sequence: 0,
            has_frame: false,
            error: None,
        }
    }

    /// Starts to capture a display: the number of the new session. The display that
    /// is captured already goes on.
    pub fn start(&mut self, display_id: u32, width: u64, height: u64) -> (epoch: Option<u64>)
        ensures
            if old(self).display == Some(display_id) {
                epoch is None && *final(self) == *old(self)
            } else {
                epoch == Some(final(self).epoch) && *final(self) == (CaptureSession {
                    display: Some(display_id),
                    width,
                    height,
                    ..old(self).stopped()
                })
            },
    {
        if let Some(display) = self.display {
            if display == display_id {
                return None;
            }
        }
        self.stop();
        self.display = Some(display_id);
        self.width = width;
        self.height = height;
        Some(self.epoch)
    }

    pub fn stop(&mut self)
        ensures
            *final(self) == old(self).stopped(),
    {
        self.epoch = measure::next_number(self.epoch);
        self.display = None;
        self.has_frame = false;
        self.error = None;
    }

    /// Takes the list of what can be captured, for the session that asked: the place
    /// of the display to capture. The app's own windows must be excluded, so that
    /// nothing is captured where the app is not among the `own_apps`.
    pub fn accept_content(&mut self, epoch: u64, displays: &[u32], own_apps: usize) -> (place: Option<
        usize,
    >)
        ensures
            if epoch != old(self).epoch {
                place is None && *final(self) == *old(self)
            } else {
                match place {
                    Some(place) => {
                        &&& *final(self) == *old(self)
                        &&& own_apps > 0
                        &&& place < displays@.len()
                        &&& old(self).display == Some(displays@[place as int])
                        &&& forall|i: int|
                            0 <= i < place ==> old(self).display != Some(#[trigger] displays@[i])
                    },
                    None => {
                        &&& *final(self) == (CaptureSession {
                            error: final(self).error,
                            ..*old(self)
                        })
                        &&& if forall|i: int|
                            0 <= i < displays@.len() ==> old(self).display != Some(
                                #[trigger] displays@[i],
                            ) {
                            shows_error(*final(self), "目标显示器已断开"@)
                        } else {
                            own_apps == 0 && shows_error(
                                *final(self),
                                "无法从采集中排除本程序，放大镜已停止"@,
                            )
                        }
                    },
                }
            },
    {
        if epoch != self.epoch {
            return None;
        }
        let mut place: usize = 0;
        while place < displays.len()
            invariant
                place <= displays@.len(),
                forall|i: int| 0 <= i < place ==> self.display != Some(#[trigger] displays@[i]),
            ensures
                place <= displays@.len(),
                forall|i: int| 0 <= i < place ==> self.display != Some(#[trigger] displays@[i]),
                place < displays@.len() ==> self.display == Some(displays@[place as int]),
            decreases displays.len() - place,
        {
            if let Some(display) = self.display {
                if display == displays[place] {
                    break;
                }
            }
            place = place + 1;
        }
        if place == displays.len() {
            self.error = Some("目标显示器已断开".to_owned());
            return None;
        }
        if own_apps == 0 {
            self.error = Some("无法从采集中排除本程序，放大镜已停止".to_owned());
            return None;
        }
        Some(place)
    }

    /// Takes an error, for the session that it belongs to.
    pub fn fail(&mut self, epoch: u64, error: &str)
        ensures
            if epoch == old(self).epoch {
                shows_error(*final(self), error@) && *final(self) == (CaptureSession {
                    error: final(self).error,
                    ..*old(self)
                })
            } else {
                *final(self) == *old(self)
            },
    {
        if epoch == self.epoch {
            self.error = Some(error.to_owned());
        }
    }

    /// The present stream ended with an error; its picture goes.
    pub fn stream_failed(&mut self, error: &str)
        ensures
            shows_error(*final(self), error@),
            *final(self) == (CaptureSession {
                error: final(self).error,
                has_frame: false,
                ..*old(self)
            }),
    {
        self.error = Some(error.to_owned());
        self.has_frame = false;
    }

    /// The present stream gave a frame.
    pub fn frame_arrived(&mut self)
        ensures
            *final(self) == (CaptureSession {
                sequence: measure::following(old(self).sequence),
                has_frame: true,
                ..*old(self)
            }),
    {
        self.sequence = measure::next_number(self.sequence);
        self.has_frame = true;
    }
}

/// What belongs to a stopped session never counts for the next one.
pub proof fn stopped_sessions_have_another_number(session: CaptureSession)
    ensures
        session.stopped().epoch != session.epoch,
        session.stopped().display is None,
        !session.stopped().has_frame,
        session.stopped().error is None,
{
}

/// Stopping takes the next session number and keeps the measures and the count of frames.
pub proof fn stopping_keeps_the_count_of_frames(session: CaptureSession)
    ensures
        session.epoch < u64::MAX ==> session.stopped().epoch == session.epoch + 1,
        session.stopped().width == session.width,
        session.stopped().height == session.height,
        session.stopped().sequence == session.sequence,
{
}

/// A session shows an error exactly where it holds one with that text.
pub proof fn errors_are_shown_by_their_text(session: CaptureSession, text: Seq<char>)
    ensures
        session.error is None ==> !shows_error(session, text),
        session.error matches Some(error) ==> (shows_error(session, text) <==> error@ == text),
{
}

} // verus!

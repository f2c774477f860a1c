//! The decisions of the watch loop: from what the address bar shows and how
//! long a timer has run, when a recording starts and ends, and what is
//! gathered while it runs.
use vstd::prelude::*;
use vstd::utf8::encode_utf8;
use crate::text::{blacklisted_title, title_text_blacklist};

verus! {

/// Seconds a YouTube video must show before recording starts (the length of
/// the recorder's replay buffer).
pub const YT_STARTUP_SECS: u64 = 90;

/// Seconds without YouTube before the recording ends.
pub const YT_FINISH_SECS: u64 = 120;

/// What the loop does after looking at the screen once.
pub enum MonitorAction {
    /// The timer is started: YouTube has just appeared, or just gone away
    /// during a recording.
    StartTimer,
    /// YouTube has shown long enough: recording starts and a screenshot is
    /// taken for the thumbnail.
    StartCapture,
    /// Recording goes on: read the captions, and the title while it is
    /// still unknown.
    Gather,
    /// Nothing is recorded and no YouTube video shows.
    Idle,
    /// YouTube has been gone long enough: recording ends with what was
    /// gathered.
    EndCapture { title: Option<String>, captions: Vec<String> },
    /// Still YouTube, not yet long enough to start.
    WaitingToStart,
    /// The video seems over, not yet long enough to end.
    WaitingToEnd,
}

/// Where the title of the video being recorded is looked for, in this
/// order: the first title area of the screen, the second, then the video's
/// page on the web.
pub enum TitleLookup {
    ScreenArea(usize),
    Url,
}

/// The state of the watch loop: whether the timer runs, whether a
/// recording runs, and the title and captions gathered for it.
pub struct Monitor {
    pub timing: bool,
    pub capturing: bool,
    pub title: Option<String>,
    pub captions: Vec<String>,
}

impl Monitor {
    /// Nothing is gathered outside a recording, and no gathered caption is
    /// empty.
    pub open spec fn wf(&self) -> bool {
        &&& !self.capturing ==> self.title is None && self.captions@.len() == 0
        &&& forall|i: int| 0 <= i < self.captions@.len() ==> #[trigger] self.captions@[i]@.len() > 0
    }

    /// The loop before it has looked at the screen.
    pub fn new() -> (r: Self)
        ensures
            r.wf(),
            !r.timing,
            !r.capturing,
            r.title is None,
            r.captions@.len() == 0,
    {
        Monitor { timing: false, capturing: false, title: None, captions: Vec::new() }
    }

    /// One look at the screen: `youtube` tells whether the address bar shows
    /// YouTube, `elapsed_secs` how long the timer has run (read only while it
    /// runs). Every combination is handled.
    pub fn step(&mut self, youtube: bool, elapsed_secs: u64) -> (r: MonitorAction)
        requires
            old(self).wf(),
        ensures
            final(self).wf(),
            ({
                let o = *old(self);
                let n = *final(self);
                if youtube && !o.capturing && !o.timing {
                    &&& r is StartTimer
                    &&& n.timing && !n.capturing
                    &&& n.title == o.title && n.captions == o.captions
                } else if youtube && !o.capturing && elapsed_secs > YT_STARTUP_SECS {
                    &&& r is StartCapture
                    &&& !n.timing && n.capturing
                    &&& n.title == o.title && n.captions == o.captions
                } else if youtube && !o.capturing {
                    &&& r is WaitingToStart
                    &&& n == o
                } else if youtube {
                    &&& r is Gather
                    &&& !n.timing && n.capturing
                    &&& n.title == o.title && n.captions == o.captions
                } else if !o.capturing {
                    &&& r is Idle
                    &&& !n.timing && !n.capturing
                    &&& n.title == o.title && n.captions == o.captions
                } else if !o.timing {
                    &&& r is StartTimer
                    &&& n.timing && n.capturing
                    &&& n.title == o.title && n.captions == o.captions
                } else if elapsed_secs > YT_FINISH_SECS {
                    &&& r matches MonitorAction::EndCapture { title, captions }
                    &&& title == o.title && captions == o.captions
                    &&& !n.timing && !n.capturing
                    &&& n.title is None && n.captions@.len() == 0
                } else {
                    &&& r is WaitingToEnd
                    &&& n == o
                }
            }),
    {
        if youtube && !self.capturing && !self.timing {
            self.timing = true;
            MonitorAction::StartTimer
        } else if youtube && !self.capturing && self.timing && elapsed_secs > YT_STARTUP_SECS {
            self.capturing = true;
            self.timing = false;
            MonitorAction::StartCapture
        } else if youtube && self.capturing {
            self.timing = false;
            MonitorAction::Gather
        } else if !youtube && !self.capturing {
            self.timing = false;
            MonitorAction::Idle
        } else if !youtube && self.capturing && !self.timing {
            self.timing = true;
            MonitorAction::StartTimer
        } else if !youtube && self.capturing && self.timing && elapsed_secs > YT_FINISH_SECS {
            let title = self.title.take();
            let mut captions: Vec<String> = Vec::new();
            std::mem::swap(&mut captions, &mut self.captions);
            self.capturing = false;
            self.timing = false;
            MonitorAction::EndCapture { title, captions }
        } else if self.timing && !self.capturing && youtube {
            MonitorAction::WaitingToStart
        } else {
            MonitorAction::WaitingToEnd
        }
    }

    /// Keeps a caption read during a recording, unless it is empty.
    pub fn add_caption(&mut self, caption: String)
        requires
            old(self).wf(),
            old(self).capturing,
        ensures
            final(self).wf(),
            final(self).timing == old(self).timing,
            final(self).capturing == old(self).capturing,
            final(self).title == old(self).title,
            final(self).captions@ == (if caption@.len() == 0 {
                old(self).captions@
            } else {
                old(self).captions@.push(caption)
            }),
    {
        if caption.as_str().unicode_len() != 0 {
            self.captions.push(caption);
        }
    }

    /// Whether the title of the video being recorded is still to be found.
    pub fn needs_title(&self) -> (r: bool)
        ensures
            r == (self.capturing && self.title is None),
    {
        self.capturing && self.title.is_none()
    }

    /// The next place to look for the title after `looked` places were
    /// tried in this look at the screen: the title areas 0 and 1, then the
    /// web; none once the title is known or all three were tried.
    pub fn next_title_lookup(&self, looked: usize) -> (r: Option<TitleLookup>)
        ensures
            !(self.capturing && self.title is None) || looked >= 3 ==> r is None,
            self.capturing && self.title is None && looked < 2 ==> (r matches Some(
                TitleLookup::ScreenArea(i),
            ) && i == looked),
            self.capturing && self.title is None && looked == 2 ==> r matches Some(
                TitleLookup::Url,
            ),
    {
        if !self.needs_title() || looked >= 3 {
            None
        } else if looked < 2 {
            Some(TitleLookup::ScreenArea(looked))
        } else {
            Some(TitleLookup::Url)
        }
    }

    /// Takes a title read off a title area if it passes: long enough, English
    /// by the model's answer, and not the page's top bar. Tells whether it
    /// was taken.
    pub fn offer_screen_title(&mut self, text: String, english: bool) -> (r: bool)
        requires
            old(self).wf(),
            old(self).capturing,
            old(self).title is None,
        ensures
            final(self).wf(),
            r == (long_enough(text@) && english && !blacklisted_title(text@)),
            final(self).title == (if r {
                Some(text)
            } else {
                None
            }),
            final(self).timing == old(self).timing,
            final(self).capturing == old(self).capturing,
            final(self).captions == old(self).captions,
    {
        if accept_screen_title(text.as_str(), english) {
            self.title = Some(text);
            true
        } else {
            false
        }
    }

    /// Takes the title found on the web, if one was.
    pub fn offer_url_title(&mut self, title: Option<String>)
        requires
            old(self).wf(),
            old(self).capturing,
            old(self).title is None,
        ensures
            final(self).wf(),
            final(self).title == title,
            final(self).timing == old(self).timing,
            final(self).capturing == old(self).capturing,
            final(self).captions == old(self).captions,
    {
        self.title = title;
    }

    /// Keeps the title found for the video being recorded.
    pub fn set_title(&mut self, title: String)
        requires
            old(self).wf(),
            old(self).capturing,
        ensures
            final(self).wf(),
            final(self).timing == old(self).timing,
            final(self).capturing == old(self).capturing,
            final(self).title == Some(title),
            final(self).captions == old(self).captions,
    {
        self.title = Some(title);
    }
}

/// A filtered title text is long enough to be worth asking the model about:
/// more than five bytes.
pub open spec fn long_enough(text: Seq<char>) -> bool {
    encode_utf8(text).len() > 5
}

/// Whether a filtered title text is long enough to be worth checking.
pub fn title_long_enough(text: &str) -> (r: bool)
    ensures
        r == long_enough(text@),
{
    text.as_bytes().len() > 5
}

/// Whether a title read off the screen is taken: long enough, English by
/// the model's answer, and not the YouTube page's own top bar.
pub fn accept_screen_title(text: &str, english: bool) -> (r: bool)
    ensures
        r == (long_enough(text@) && english && !blacklisted_title(text@)),
{
    title_long_enough(text) && english && !title_text_blacklist(text)
}

} // verus!

//! The settings program's voice page: the download status line, the hint for
//! each tier, which rows the page shows, and what to do after each poll of a
//! running download.
use vstd::prelude::*;
use crate::fetch::tier::{size_label, sizes_sum};
use crate::fetch::{FetchEvent, Tier};
use crate::text::{chars_of, push_all, string_of};

verus! {

/// Where the model download stands, as the voice page shows it.
#[derive(Debug, Clone)]
pub enum VoiceStatus {
    /// Nothing is downloading.
    Idle,
    /// The named tier is downloading.
    Downloading(String),
    /// Done, with a message.
    Finished(String),
    /// Failed, with the error.
    Failed(String),
}

/// The status line under the tiers.
pub open spec fn status_line(status: VoiceStatus) -> Seq<char> {
    match status {
        VoiceStatus::Idle => Seq::empty(),
        VoiceStatus::Downloading(name) => "正在下载 "@ + name@ + "…可以关掉这个窗口，但别关机。"@,
        VoiceStatus::Finished(message) => message@,
        VoiceStatus::Failed(message) => "失败："@ + message@,
    }
}

/// The status line under the tiers: empty while idle.
pub fn status_text(status: &VoiceStatus) -> (r: String)
    ensures
        r@ == status_line(*status),
{
    let mut out: Vec<char> = Vec::new();
    match status {
        VoiceStatus::Idle => {},
        VoiceStatus::Downloading(name) => {
            push_all(&mut out, "正在下载 ");
            push_all(&mut out, name.as_str());
            push_all(&mut out, "…可以关掉这个窗口，但别关机。");
        },
        VoiceStatus::Finished(message) => {
            push_all(&mut out, message.as_str());
        },
        VoiceStatus::Failed(message) => {
            push_all(&mut out, "失败：");
            push_all(&mut out, message.as_str());
        },
    }
    string_of(&out)
}

/// The hint beside a tier: its note, then its size in brackets.
pub fn tier_hint(tier: &Tier) -> (r: String)
    requires
        sizes_sum(tier.files@) <= u64::MAX,
    ensures
        r@ == tier.note@ + "（"@ + size_label(sizes_sum(tier.files@)) + "）"@,
{
    let size = tier.size_text();
    let mut out: Vec<char> = Vec::new();
    push_all(&mut out, tier.note.as_str());
    push_all(&mut out, "（");
    push_all(&mut out, size.as_str());
    push_all(&mut out, "）");
    string_of(&out)
}

/// What the installed-model row shows.
pub fn installed_text(model_dir: Option<&str>) -> (r: String)
    ensures
        match model_dir {
            Some(dir) => r@ == dir@,
            None => r@ == "还没有可用的模型"@,
        },
{
    match model_dir {
        Some(dir) => dir.to_owned(),
        None => "还没有可用的模型".to_owned(),
    }
}

/// What a download waiting loop does after one poll.
#[derive(Debug)]
pub enum DownloadStep {
    /// Keep waiting.
    Wait,
    /// Cancel the download, then stop with this error.
    Cancel(String),
    /// Stop with this outcome: a message for the page, or an error.
    Finish(Result<String, String>),
}

/// One round of waiting for a download: a cancel request wins; then the
/// event decides (done, failed, progress is received but not shown); with no
/// event and the download's thread gone, it ended unexpectedly.
pub fn download_step(cancelled: bool, event: Option<FetchEvent>, finished: bool) -> (r: DownloadStep)
    ensures
        cancelled ==> (r matches DownloadStep::Cancel(m) && m@ == "已取消"@),
        !cancelled ==> match event {
            Some(FetchEvent::Done { dir }) => (r matches DownloadStep::Finish(Ok(m)) && m@ == "已下好，放在 "@ + dir@),
            Some(FetchEvent::Failed(e)) => (r matches DownloadStep::Finish(Err(m)) && m@ == e@),
            Some(FetchEvent::Progress { .. }) => r is Wait,
            None => if finished {
                (r matches DownloadStep::Finish(Err(m)) && m@ == "下载线程意外结束了"@)
            } else {
                r is Wait
            },
        },
{
    if cancelled {
        return DownloadStep::Cancel("已取消".to_owned());
    }
    match event {
        Some(FetchEvent::Done { dir }) => {
            let mut out: Vec<char> = Vec::new();
            push_all(&mut out, "已下好，放在 ");
            push_all(&mut out, dir.as_str());
            DownloadStep::Finish(Ok(string_of(&out)))
        },
        Some(FetchEvent::Failed(error)) => DownloadStep::Finish(Err(error)),
        Some(FetchEvent::Progress { .. }) => DownloadStep::Wait,
        None => if finished {
            DownloadStep::Finish(Err("下载线程意外结束了".to_owned()))
        } else {
            DownloadStep::Wait
        },
    }
}

/// What follows the tier rows on the voice page.
#[derive(Debug, Clone)]
pub enum PageFooter {
    /// A running download: a progress bar with the status line.
    Progress(String),
    /// The status line as a note.
    Note(String),
    /// Nothing: no status to show.
    Nothing,
}

/// The rows of the voice page that depend on the catalog and the download.
#[derive(Debug, Clone)]
pub struct PagePlan {
    /// Say that this build has no model to download (the catalog is empty).
    pub empty_note: bool,
    /// The download buttons can be pressed (no download is running).
    pub buttons_enabled: bool,
    /// What follows the tiers.
    pub footer: PageFooter,
}

/// Lays out the voice page: a note when the catalog `tiers` is empty; the
/// download buttons disabled while a download runs; then a progress row
/// during a download, else the status line as a note when there is one.
pub fn page_plan(tiers: &[(String, Tier)], status: &VoiceStatus) -> (r: PagePlan)
    ensures
        r.empty_note == (tiers@.len() == 0),
        r.buttons_enabled == !(*status is Downloading),
        match *status {
            VoiceStatus::Downloading(_) => r.footer matches PageFooter::Progress(t) && t@ == status_line(*status),
            _ => if status_line(*status).len() == 0 {
                r.footer is Nothing
            } else {
                r.footer matches PageFooter::Note(t) && t@ == status_line(*status)
            },
        },
{
    let downloading = match status {
        VoiceStatus::Downloading(_) => true,
        _ => false,
    };
    let text = status_text(status);
    let shown = chars_of(text.as_str()).len() > 0;
    let footer = if downloading {
        PageFooter::Progress(text)
    } else if shown {
        PageFooter::Note(text)
    } else {
        PageFooter::Nothing
    };
    PagePlan { empty_note: tiers.len() == 0, buttons_enabled: !downloading, footer }
}

} // verus!

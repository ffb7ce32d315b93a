//! Downloads of videos to files: which files, and in which order the work on
//! one of them is done.
//!
//! A video is written to a private temporary file beside its destination and
//! renamed only when it is complete, so that a failure leaves no file that
//! looks finished. Nothing here touches a file or a network: a transfer says
//! what to do, and is told what came of it.

use vstd::prelude::*;

use crate::error::plain_error;
use crate::error::result_model;
use crate::error::ErrorKind;
use crate::error::ErrorView;
use crate::error::XReadError;
use crate::model::Post;
use crate::model::PostReference;
use crate::model::PostView;
use crate::model::ReferenceView;
use crate::model::VideoQuality;
use crate::shown;
use crate::text;
use crate::video;

verus! {

// ----------------------------------------------------------------------
// Options, results and events

/// How to download the videos of a post.
#[derive(Debug)]
pub struct DownloadOptions {
    /// Directory in which the final `.mp4` files are created.
    pub output_dir: String,
    /// Download one video by its one-based position, or all videos when absent.
    pub video: Option<usize>,
    pub quality: VideoQuality,
    /// Replace an existing final file with the same deterministic name.
    pub force: bool,
}

/// The model of `DownloadOptions`.
pub struct DownloadOptionsView {
    pub output_dir: Seq<char>,
    pub video: Option<usize>,
    pub quality: VideoQuality,
    pub force: bool,
}

impl DeepView for DownloadOptions {
    type V = DownloadOptionsView;

    open spec fn deep_view(&self) -> DownloadOptionsView {
        DownloadOptionsView {
            output_dir: self.output_dir@,
            video: self.video,
            quality: self.quality,
            force: self.force,
        }
    }
}

impl Default for DownloadOptions {
    fn default() -> (out: Self)
        ensures
            out.output_dir@ == "."@,
            out.video is None,
            out.quality == VideoQuality::Best,
            !out.force,
    {
        DownloadOptions {
            output_dir: ".".to_owned(),
            video: None,
            quality: VideoQuality::Best,
            force: false,
        }
    }
}

/// A video that was downloaded.
#[derive(Debug, Clone, PartialEq, Eq)]
pub struct DownloadedVideo {
    /// One-based position of this video in the post.
    pub index: usize,
    pub source_url: String,
    pub path: String,
    pub bytes: u64,
}

/// The model of `DownloadedVideo`.
pub struct DownloadedView {
    pub index: usize,
    pub source_url: Seq<char>,
    pub path: Seq<char>,
    pub bytes: u64,
}

impl DeepView for DownloadedVideo {
    type V = DownloadedView;

    open spec fn deep_view(&self) -> DownloadedView {
        DownloadedView {
            index: self.index,
            source_url: self.source_url@,
            path: self.path@,
            bytes: self.bytes,
        }
    }
}

/// Events let a caller display progress: a terminal and a window can show the
/// same events differently.
#[derive(Debug, Clone, PartialEq, Eq)]
pub enum DownloadEvent {
    Started { index: usize, path: String, total_bytes: Option<u64> },
    Progress { index: usize, downloaded_bytes: u64, total_bytes: Option<u64> },
    Finished { index: usize, path: String, bytes: u64 },
}

/// The model of `DownloadEvent`.
pub enum EventView {
    Started { index: usize, path: Seq<char>, total_bytes: Option<u64> },
    Progress { index: usize, downloaded_bytes: u64, total_bytes: Option<u64> },
    Finished { index: usize, path: Seq<char>, bytes: u64 },
}

impl DeepView for DownloadEvent {
    type V = EventView;

    open spec fn deep_view(&self) -> EventView {
        match self {
            DownloadEvent::Started { index, path, total_bytes } => EventView::Started {
                index: *index,
                path: path@,
                total_bytes: *total_bytes,
            },
            DownloadEvent::Progress { index, downloaded_bytes, total_bytes } => EventView::Progress {
                index: *index,
                downloaded_bytes: *downloaded_bytes,
                total_bytes: *total_bytes,
            },
            DownloadEvent::Finished { index, path, bytes } => EventView::Finished {
                index: *index,
                path: path@,
                bytes: *bytes,
            },
        }
    }
}

// ----------------------------------------------------------------------
// File names

/// Whether a character can stand in a file name of any system.
pub open spec fn is_safe(c: char) -> bool {
    text::is_letter(c) || text::is_digit(c) || c == '-' || c == '_'
}

/// `value` with an underscore for every character that is not safe.
pub open spec fn sanitized(value: Seq<char>) -> Seq<char> {
    value.map_values(
        |c: char|
            if is_safe(c) {
                c
            } else {
                '_'
            },
    )
}

/// A part of a file name: the safe characters of `value`, without underscores
/// around them; `x` where nothing is left.
pub open spec fn safe_part(value: Seq<char>) -> Seq<char> {
    let trimmed = text::trim_by(sanitized(value), text::among(seq!['_']));
    if trimmed.len() == 0 {
        "x"@
    } else {
        trimmed
    }
}

/// The name of the file of a video.
pub open spec fn file_name(username: Seq<char>, post_id: Seq<char>, index: usize) -> Seq<char> {
    safe_part(username) + "-"@ + post_id + "-"@ + text::decimal(index as nat) + ".mp4"@
}

/// The name of the temporary file beside a destination.
pub open spec fn temporary_file(name: Seq<char>, process: u32, nonce: Seq<char>) -> Seq<char> {
    "."@ + name + "."@ + text::decimal(process as nat) + "."@ + nonce + ".part"@
}

/// Makes a part of a file name.
pub fn safe_component(value: &str) -> (out: String)
    ensures
        out@ == safe_part(value@),
{
    let chars = text::chars_of(value);
    let ghost wanted = sanitized(value@);
    let mut clean = String::new();
    let mut i: usize = 0;
    while i < chars.len()
        invariant
            i <= chars@.len(),
            chars@ == value@,
            wanted == sanitized(value@),
            clean@ == wanted.take(i as int),
        decreases chars.len() - i,
    {
        let c = chars[i];
        let ghost before = clean@;
        let safe = text::char_is_letter(c) || text::char_is_digit(c) || c == '-' || c == '_';
        clean.push(
            if safe {
                c
            } else {
                '_'
            },
        );
        assert(clean@ == before.push(wanted[i as int]));
        i = i + 1;
    }
    assert(wanted.take(i as int) == wanted);
    let underscore: [char; 1] = ['_'];
    assert(underscore@ == seq!['_']);
    let trimmed = text::trim_end_set(
        text::trim_start_set(clean.as_str(), &underscore),
        &underscore,
    );
    if trimmed.is_empty() {
        "x".to_owned()
    } else {
        trimmed.to_owned()
    }
}

/// Names the file of a video.
pub fn download_file_name(username: &str, post_id: &str, index: usize) -> (out: String)
    ensures
        out@ == file_name(username@, post_id@, index),
{
    let user = safe_component(username);
    let front = text::cat4(user.as_str(), "-", post_id, "-");
    let number = text::number_text(index as u64);
    text::cat3(front.as_str(), number.as_str(), ".mp4")
}

/// Names the temporary file beside a destination, by its process and a nonce.
pub fn temporary_name(name: &str, process: u32, nonce: &str) -> (out: String)
    ensures
        out@ == temporary_file(name@, process, nonce@),
{
    let number = text::number_text(process as u64);
    let front = text::cat4(".", name, ".", number.as_str());
    text::cat4(front.as_str(), ".", nonce, ".part")
}

// ----------------------------------------------------------------------
// Plans

/// A video to download.
#[derive(Debug)]
pub struct PlannedVideo {
    /// One-based position of this video in the post.
    pub index: usize,
    pub url: String,
    pub file_name: String,
}

/// The model of `PlannedVideo`.
pub struct PlannedView {
    pub index: usize,
    pub url: Seq<char>,
    pub file_name: Seq<char>,
}

impl DeepView for PlannedVideo {
    type V = PlannedView;

    open spec fn deep_view(&self) -> PlannedView {
        PlannedView { index: self.index, url: self.url@, file_name: self.file_name@ }
    }
}

/// What is wrong with a request before anything is fetched.
pub open spec fn request_check(requested: Option<usize>) -> Result<(), ErrorView> {
    if requested == Some(0usize) {
        Err(plain_error(ErrorKind::InvalidInput, "video 从 1 开始计数，例如 --video 1。"@))
    } else {
        Ok(())
    }
}

/// Refuses position zero, before anything is fetched.
pub fn check_request(requested: Option<usize>) -> (out: Result<(), XReadError>)
    ensures
        crate::error::error_view(out) == request_check(requested),
{
    match requested {
        Some(index) => {
            if index == 0 {
                Err(XReadError::invalid_input("video 从 1 开始计数，例如 --video 1。"))
            } else {
                Ok(())
            }
        },
        None => Ok(()),
    }
}

/// Whose name the files carry: the author's, else that of the reference.
pub open spec fn name_for(post: PostView, reference: ReferenceView) -> Seq<char> {
    match post.author.username {
        Some(username) => username,
        None => match reference.username {
            Some(username) => username,
            None => "x"@,
        },
    }
}

/// The files of the selected videos.
pub open spec fn named_files(
    selected: Seq<(usize, Seq<char>)>,
    username: Seq<char>,
    id: Seq<char>,
) -> Seq<PlannedView> {
    selected.map_values(
        |video: (usize, Seq<char>)|
            PlannedView {
                index: video.0,
                url: video.1,
                file_name: file_name(username, id, video.0),
            },
    )
}

/// What to download of a post: one video by its position or all of them, each
/// to a file of its own.
pub open spec fn plan_for(
    post: PostView,
    reference: ReferenceView,
    quality: VideoQuality,
    requested: Option<usize>,
) -> Result<Seq<PlannedView>, ErrorView> {
    let urls = video::post_urls(post, quality);
    if urls.len() == 0 {
        Err(plain_error(ErrorKind::NoVideo, "这条推文没有可下载的 MP4 视频。"@))
    } else {
        match video::selected_videos(urls, requested) {
            Ok(selected) => Ok(named_files(selected, name_for(post, reference), reference.id)),
            Err(error) => Err(error),
        }
    }
}

fn choose_name<'a>(post: &'a Post, reference: &'a PostReference) -> (out: &'a str)
    ensures
        out@ == name_for(post.deep_view(), reference.deep_view()),
{
    match &post.author.username {
        Some(username) => username.as_str(),
        None => match &reference.username {
            Some(username) => username.as_str(),
            None => "x",
        },
    }
}

fn name_files(selected: &Vec<(usize, &str)>, username: &str, id: &str) -> (out: Vec<PlannedVideo>)
    ensures
        out.deep_view() == named_files(video::numbered(selected@), username@, id@),
{
    let ghost wanted = named_files(video::numbered(selected@), username@, id@);
    let mut out: Vec<PlannedVideo> = Vec::new();
    assert(out.deep_view() == wanted.take(0));
    let mut i: usize = 0;
    while i < selected.len()
        invariant
            i <= selected@.len(),
            wanted == named_files(video::numbered(selected@), username@, id@),
            out.deep_view() == wanted.take(i as int),
        decreases selected.len() - i,
    {
        let ghost before = out.deep_view();
        let (index, url) = selected[i];
        let planned = PlannedVideo {
            index,
            url: url.to_owned(),
            file_name: download_file_name(username, id, index),
        };
        assert(video::numbered(selected@)[i as int] == (index, url@));
        let ghost added = planned.deep_view();
        assert(added == wanted[i as int]);
        out.push(planned);
        assert(out.deep_view() == before.push(added));
        i = i + 1;
    }
    assert(wanted.take(i as int) == wanted);
    out
}

/// Plans what to download of a post.
pub fn plan_downloads(
    post: &Post,
    reference: &PostReference,
    quality: VideoQuality,
    requested: Option<usize>,
) -> (out: Result<Vec<PlannedVideo>, XReadError>)
    ensures
        result_model(out) == plan_for(
            post.deep_view(),
            reference.deep_view(),
            quality,
            requested,
        ),
{
    let urls = post.video_urls_with_quality(quality);
    assert(urls@.len() == urls.deep_view().len());
    if urls.len() == 0 {
        return Err(XReadError::no_video("这条推文没有可下载的 MP4 视频。"));
    }
    match video::select_videos(urls.as_slice(), requested) {
        Ok(selected) => Ok(
            name_files(&selected, choose_name(post, reference), reference.id.as_str()),
        ),
        Err(error) => Err(error),
    }
}

/// Whether a destination can be used, by what looking for it came to: it must
/// not be there, unless files may be replaced.
pub open spec fn destination_check(
    path: Seq<char>,
    force: bool,
    present: Result<bool, Seq<char>>,
) -> Result<(), ErrorView> {
    if force {
        Ok(())
    } else {
        match present {
            Ok(false) => Ok(()),
            Ok(true) => Err(
                plain_error(
                    ErrorKind::InvalidInput,
                    "文件已存在："@ + path + "。如需覆盖，请加 --force。"@,
                ),
            ),
            Err(error) => Err(
                plain_error(ErrorKind::Internal, "无法检查 "@ + path + "："@ + error),
            ),
        }
    }
}

/// The model of what looking for a file came to.
pub open spec fn present_view(present: Result<bool, String>) -> Result<bool, Seq<char>> {
    match present {
        Ok(present) => Ok(present),
        Err(error) => Err(error@),
    }
}

/// Decides whether a destination can be used.
pub fn check_destination(path: &str, force: bool, present: &Result<bool, String>) -> (out: Result<
    (),
    XReadError,
>)
    ensures
        crate::error::error_view(out) == destination_check(path@, force, present_view(*present)),
{
    if force {
        return Ok(());
    }
    match present {
        Ok(present) => {
            if *present {
                let message = text::cat3("文件已存在：", path, "。如需覆盖，请加 --force。");
                Err(XReadError::invalid_input(message.as_str()))
            } else {
                Ok(())
            }
        },
        Err(error) => {
            let message = text::cat4("无法检查 ", path, "：", error.as_str());
            Err(XReadError::internal(message.as_str()))
        },
    }
}

/// The models of what looking for the files came to.
pub open spec fn present_views(present: Seq<Result<bool, String>>) -> Seq<Result<bool, Seq<char>>> {
    present.map_values(|present: Result<bool, String>| present_view(present))
}

/// Whether all the destinations can be used: the first error, if there is one.
pub open spec fn destinations_check(
    paths: Seq<Seq<char>>,
    force: bool,
    present: Seq<Result<bool, Seq<char>>>,
) -> Result<(), ErrorView>
    decreases paths.len(),
{
    if paths.len() == 0 {
        Ok(())
    } else {
        let last = paths.len() - 1;
        match destinations_check(paths.drop_last(), force, present) {
            Ok(_) => destination_check(paths[last], force, present[last]),
            Err(error) => Err(error),
        }
    }
}

/// The place of the first destination that cannot be used.
proof fn lemma_destinations(
    paths: Seq<Seq<char>>,
    force: bool,
    present: Seq<Result<bool, Seq<char>>>,
) -> (at: int)
    ensures
        match destinations_check(paths, force, present) {
            Ok(_) => forall|i: int|
                0 <= i < paths.len() ==> destination_check(
                    #[trigger] paths[i],
                    force,
                    present[i],
                ) is Ok,
            Err(error) => {
                &&& 0 <= at < paths.len()
                &&& destination_check(paths[at], force, present[at]) == Err::<(), ErrorView>(error)
                &&& forall|i: int|
                    0 <= i < at ==> destination_check(
                        #[trigger] paths[i],
                        force,
                        present[i],
                    ) is Ok
            },
        },
    decreases paths.len(),
{
    if paths.len() == 0 {
        0
    } else {
        let rest = paths.drop_last();
        let at = lemma_destinations(rest, force, present);
        assert forall|i: int| 0 <= i < rest.len() implies #[trigger] paths[i] == rest[i] by {}
        if destinations_check(rest, force, present) is Ok {
            paths.len() - 1
        } else {
            at
        }
    }
}

/// Decides whether all the destinations can be used. They are checked together,
/// before the first byte is fetched, so that no video is saved before it is
/// known that the next can be.
pub fn check_destinations(
    paths: &Vec<String>,
    force: bool,
    present: Vec<Result<bool, String>>,
) -> (out: Result<(), XReadError>)
    requires
        present@.len() == paths@.len(),
    ensures
        crate::error::error_view(out) == destinations_check(
            paths.deep_view(),
            force,
            present_views(present@),
        ),
        out is Ok <==> (forall|i: int|
            0 <= i < paths@.len() ==> destination_check(
                (#[trigger] paths@[i])@,
                force,
                present_view(present@[i]),
            ) is Ok),
        out matches Err(error) ==> (exists|at: int|
            0 <= at < paths@.len() && destination_check(
                (#[trigger] paths@[at])@,
                force,
                present_view(present@[at]),
            ) == Err::<(), ErrorView>(error.deep_view()) && (forall|i: int|
                0 <= i < at ==> destination_check(
                    (#[trigger] paths@[i])@,
                    force,
                    present_view(present@[i]),
                ) is Ok)),
{
    let ghost model = paths.deep_view();
    let ghost found = present_views(present@);
    let mut out: Result<(), XReadError> = Ok(());
    let mut i: usize = 0;
    while i < paths.len()
        invariant
            i <= paths@.len(),
            present@.len() == paths@.len(),
            model == paths.deep_view(),
            found == present_views(present@),
            crate::error::error_view(out) == destinations_check(
                model.take(i as int),
                force,
                found,
            ),
        decreases paths.len() - i,
    {
        assert(model.take(i + 1).drop_last() == model.take(i as int));
        assert(model[i as int] == paths@[i as int]@);
        if out.is_ok() {
            out = check_destination(paths[i].as_str(), force, &present[i]);
        }
        i = i + 1;
    }
    assert(model.take(i as int) == model);
    proof {
        let at = lemma_destinations(model, force, found);
        assert forall|i: int| 0 <= i < paths@.len() implies model[i] == (#[trigger] paths@[i])@
            && found[i] == present_view(present@[i]) by {}
        if out is Ok {
            assert forall|i: int| 0 <= i < paths@.len() implies destination_check(
                (#[trigger] paths@[i])@,
                force,
                present_view(present@[i]),
            ) is Ok by {
                assert(destination_check(model[i], force, found[i]) is Ok);
            }
        } else {
            assert(destination_check(paths@[at]@, force, present_view(present@[at])) is Err);
            assert forall|i: int| 0 <= i < at implies destination_check(
                (#[trigger] paths@[i])@,
                force,
                present_view(present@[i]),
            ) is Ok by {
                assert(destination_check(model[i], force, found[i]) is Ok);
            }
        }
    }
    out
}

// ----------------------------------------------------------------------
// One transfer

/// What a transfer is waiting for.
#[derive(Debug, Clone, Copy, PartialEq, Eq, Structural)]
pub enum Phase {
    /// The answer of the server.
    Requesting,
    /// The temporary file.
    Creating,
    /// The next chunk.
    Receiving,
    /// That the chunk, of that many bytes, is in the temporary file.
    Writing(u64),
    /// That the temporary file is whole on its medium.
    Flushing,
    /// Whether an old file is at the destination.
    Looking,
    /// That the old file is gone.
    Replacing,
    /// That the temporary file has its final name.
    Renaming,
    /// Nothing more.
    Over,
}

/// What came of the work that a transfer asked for.
#[derive(Debug)]
pub enum TransferEvent {
    /// The server answered.
    Responded { status: u16, content_type: Option<String>, total: Option<u64> },
    /// A chunk of that many bytes came.
    Chunk(u64),
    /// All chunks came.
    Ended,
    /// Whether an old file is at the destination.
    Present(bool),
    /// The work is done.
    Done,
    /// The work failed, and how.
    Failed(String),
}

/// The model of `TransferEvent`.
pub enum TransferEventView {
    Responded { status: u16, content_type: Option<Seq<char>>, total: Option<u64> },
    Chunk(u64),
    Ended,
    Present(bool),
    Done,
    Failed(Seq<char>),
}

impl DeepView for TransferEvent {
    type V = TransferEventView;

    open spec fn deep_view(&self) -> TransferEventView {
        match self {
            TransferEvent::Responded { status, content_type, total } => TransferEventView::Responded {
                status: *status,
                content_type: content_type.deep_view(),
                total: *total,
            },
            TransferEvent::Chunk(bytes) => TransferEventView::Chunk(*bytes),
            TransferEvent::Ended => TransferEventView::Ended,
            TransferEvent::Present(present) => TransferEventView::Present(*present),
            TransferEvent::Done => TransferEventView::Done,
            TransferEvent::Failed(error) => TransferEventView::Failed(error@),
        }
    }
}

/// What to do next for a transfer.
#[derive(Debug)]
pub enum TransferAction {
    /// Create the temporary file.
    Create,
    /// Wait for the next chunk.
    Receive,
    /// Append the chunk to the temporary file.
    Write,
    /// Flush the temporary file.
    Flush,
    /// Look whether an old file is at the destination.
    Look,
    /// Remove the old file.
    RemoveOld,
    /// Give the temporary file its final name.
    Rename,
    /// The video is there.
    Finish(DownloadedVideo),
    /// Remove the temporary file, and hand out the error.
    Fail(XReadError),
}

/// The model of `TransferAction`.
pub enum ActionView {
    Create,
    Receive,
    Write,
    Flush,
    Look,
    RemoveOld,
    Rename,
    Finish(DownloadedView),
    Fail(ErrorView),
}

impl DeepView for TransferAction {
    type V = ActionView;

    open spec fn deep_view(&self) -> ActionView {
        match self {
            TransferAction::Create => ActionView::Create,
            TransferAction::Receive => ActionView::Receive,
            TransferAction::Write => ActionView::Write,
            TransferAction::Flush => ActionView::Flush,
            TransferAction::Look => ActionView::Look,
            TransferAction::RemoveOld => ActionView::RemoveOld,
            TransferAction::Rename => ActionView::Rename,
            TransferAction::Finish(video) => ActionView::Finish(video.deep_view()),
            TransferAction::Fail(error) => ActionView::Fail(error.deep_view()),
        }
    }
}

/// A video on its way from a URL to a file.
#[derive(Debug)]
pub struct Transfer {
    pub index: usize,
    pub url: String,
    pub destination: String,
    pub temporary: String,
    pub force: bool,
    pub phase: Phase,
    pub written: u64,
    pub total: Option<u64>,
}

/// The model of `Transfer`.
pub struct TransferView {
    pub index: usize,
    pub url: Seq<char>,
    pub destination: Seq<char>,
    pub temporary: Seq<char>,
    pub force: bool,
    pub phase: Phase,
    pub written: u64,
    pub total: Option<u64>,
}

impl DeepView for Transfer {
    type V = TransferView;

    open spec fn deep_view(&self) -> TransferView {
        TransferView {
            index: self.index,
            url: self.url@,
            destination: self.destination@,
            temporary: self.temporary@,
            force: self.force,
            phase: self.phase,
            written: self.written,
            total: self.total,
        }
    }
}

/// A transfer before its first event.
pub open spec fn new_transfer(
    index: usize,
    url: Seq<char>,
    destination: Seq<char>,
    temporary: Seq<char>,
    force: bool,
) -> TransferView {
    TransferView {
        index,
        url,
        destination,
        temporary,
        force,
        phase: Phase::Requesting,
        written: 0,
        total: None,
    }
}

/// A planned video with the places of its files, and what looking for a file at
/// its destination came to.
#[derive(Debug)]
pub struct Target {
    pub video: PlannedVideo,
    pub destination: String,
    pub temporary: String,
    pub present: Result<bool, String>,
}

/// The model of `Target`.
pub struct TargetView {
    pub video: PlannedView,
    pub destination: Seq<char>,
    pub temporary: Seq<char>,
    pub present: Result<bool, Seq<char>>,
}

impl DeepView for Target {
    type V = TargetView;

    open spec fn deep_view(&self) -> TargetView {
        TargetView {
            video: self.video.deep_view(),
            destination: self.destination@,
            temporary: self.temporary@,
            present: present_view(self.present),
        }
    }
}

/// The destinations of the targets.
pub open spec fn destinations_of(targets: Seq<TargetView>) -> Seq<Seq<char>> {
    targets.map_values(|target: TargetView| target.destination)
}

/// What looking for files at the destinations came to.
pub open spec fn presence_of(targets: Seq<TargetView>) -> Seq<Result<bool, Seq<char>>> {
    targets.map_values(|target: TargetView| target.present)
}

/// A transfer of a target before its first event.
pub open spec fn transfer_of(target: TargetView, force: bool) -> TransferView {
    new_transfer(
        target.video.index,
        target.video.url,
        target.destination,
        target.temporary,
        force,
    )
}

/// The transfers of the targets, or the first destination that cannot be used.
pub open spec fn transfers_for(targets: Seq<TargetView>, force: bool) -> Result<
    Seq<TransferView>,
    ErrorView,
> {
    match destinations_check(destinations_of(targets), force, presence_of(targets)) {
        Ok(_) => Ok(targets.map_values(|target: TargetView| transfer_of(target, force))),
        Err(error) => Err(error),
    }
}

/// Whether an event answers what a transfer is waiting for.
pub open spec fn is_expected(transfer: TransferView, event: TransferEventView) -> bool {
    match (transfer.phase, event) {
        (Phase::Over, _) => false,
        (_, TransferEventView::Failed(_)) => transfer.phase != Phase::Looking,
        (Phase::Requesting, TransferEventView::Responded { .. }) => true,
        (Phase::Creating, TransferEventView::Done) => true,
        (Phase::Receiving, TransferEventView::Chunk(bytes)) => transfer.written + bytes <= u64::MAX,
        (Phase::Receiving, TransferEventView::Ended) => true,
        (Phase::Writing(bytes), TransferEventView::Done) => transfer.written + bytes <= u64::MAX,
        (Phase::Flushing, TransferEventView::Done) => true,
        (Phase::Looking, TransferEventView::Present(_)) => true,
        (Phase::Replacing, TransferEventView::Done) => true,
        (Phase::Renaming, TransferEventView::Done) => true,
        _ => false,
    }
}

/// Whether a content type is that of a text and not of a video.
pub open spec fn is_textual(content_type: Option<Seq<char>>) -> bool {
    match content_type {
        Some(value) => text::starts_with(text::lower_case(value), "text/"@) || text::contains(
            text::lower_case(value),
            "json"@,
        ),
        None => false,
    }
}

/// What is wrong with an answer of the server, if anything.
pub open spec fn response_check(status: u16, content_type: Option<Seq<char>>) -> Option<ErrorView> {
    if !(200 <= status <= 299) {
        Some(
            ErrorView {
                upstream_status: Some(status),
                ..plain_error(
                    ErrorKind::Upstream,
                    "视频服务器返回 HTTP "@ + text::decimal(status as nat) + "。"@,
                )
            },
        )
    } else if is_textual(content_type) {
        Some(
            plain_error(
                ErrorKind::InvalidResponse,
                "视频地址返回了文本而不是媒体文件。"@,
            ),
        )
    } else {
        None
    }
}

/// Whether as many bytes came as the server announced.
pub open spec fn is_complete(transfer: TransferView) -> bool {
    match transfer.total {
        Some(expected) => expected == transfer.written,
        None => true,
    }
}

/// The error for a transfer that ended early.
pub open spec fn incomplete_error(expected: u64, written: u64) -> ErrorView {
    plain_error(
        ErrorKind::Upstream,
        "视频下载不完整：预期 "@ + text::decimal(expected as nat) + " 字节，实际收到 "@
            + text::decimal(written as nat) + " 字节。"@,
    )
}

/// The error where the work of a phase failed.
pub open spec fn phase_error(transfer: TransferView, error: Seq<char>) -> ErrorView {
    match transfer.phase {
        Phase::Requesting => plain_error(ErrorKind::Upstream, "视频下载请求失败："@ + error),
        Phase::Creating => plain_error(
            ErrorKind::Internal,
            "无法创建临时文件 "@ + transfer.temporary + "："@ + error,
        ),
        Phase::Receiving => plain_error(ErrorKind::Upstream, "视频下载中断："@ + error),
        Phase::Writing(_) => plain_error(
            ErrorKind::Internal,
            "无法写入 "@ + transfer.temporary + "："@ + error,
        ),
        Phase::Flushing => plain_error(
            ErrorKind::Internal,
            "无法刷新 "@ + transfer.temporary + "："@ + error,
        ),
        Phase::Replacing => plain_error(
            ErrorKind::Internal,
            "无法覆盖 "@ + transfer.destination + "："@ + error,
        ),
        _ => plain_error(
            ErrorKind::Internal,
            "无法将下载结果保存为 "@ + transfer.destination + "："@ + error,
        ),
    }
}

/// A transfer that moves to a phase, without anything to report.
pub open spec fn move_to(transfer: TransferView, phase: Phase, action: ActionView) -> (
    TransferView,
    Option<EventView>,
    ActionView,
) {
    (TransferView { phase, ..transfer }, None, action)
}

/// A transfer after an event that it was waiting for, with what to report and
/// what to do next.
pub open spec fn advance(transfer: TransferView, event: TransferEventView) -> (
    TransferView,
    Option<EventView>,
    ActionView,
) {
    match (transfer.phase, event) {
        (_, TransferEventView::Failed(error)) => move_to(
            transfer,
            Phase::Over,
            ActionView::Fail(phase_error(transfer, error)),
        ),
        (Phase::Requesting, TransferEventView::Responded { status, content_type, total }) => {
            match response_check(status, content_type) {
                Some(error) => move_to(transfer, Phase::Over, ActionView::Fail(error)),
                None => (
                    TransferView { phase: Phase::Creating, total, ..transfer },
                    Some(
                        EventView::Started {
                            index: transfer.index,
                            path: transfer.destination,
                            total_bytes: total,
                        },
                    ),
                    ActionView::Create,
                ),
            }
        },
        (Phase::Creating, _) => move_to(transfer, Phase::Receiving, ActionView::Receive),
        (Phase::Receiving, TransferEventView::Chunk(bytes)) => move_to(
            transfer,
            Phase::Writing(bytes),
            ActionView::Write,
        ),
        (Phase::Writing(bytes), _) => {
            let written = (transfer.written + bytes) as u64;
            (
                TransferView { phase: Phase::Receiving, written, ..transfer },
                Some(
                    EventView::Progress {
                        index: transfer.index,
                        downloaded_bytes: written,
                        total_bytes: transfer.total,
                    },
                ),
                ActionView::Receive,
            )
        },
        (Phase::Receiving, _) => if is_complete(transfer) {
            move_to(transfer, Phase::Flushing, ActionView::Flush)
        } else {
            move_to(
                transfer,
                Phase::Over,
                ActionView::Fail(incomplete_error(transfer.total->0, transfer.written)),
            )
        },
        (Phase::Flushing, _) => if transfer.force {
            move_to(transfer, Phase::Looking, ActionView::Look)
        } else {
            move_to(transfer, Phase::Renaming, ActionView::Rename)
        },
        (Phase::Looking, TransferEventView::Present(true)) => move_to(
            transfer,
            Phase::Replacing,
            ActionView::RemoveOld,
        ),
        (Phase::Looking, _) => move_to(transfer, Phase::Renaming, ActionView::Rename),
        (Phase::Replacing, _) => move_to(transfer, Phase::Renaming, ActionView::Rename),
        _ => (
            TransferView { phase: Phase::Over, ..transfer },
            Some(
                EventView::Finished {
                    index: transfer.index,
                    path: transfer.destination,
                    bytes: transfer.written,
                },
            ),
            ActionView::Finish(
                DownloadedView {
                    index: transfer.index,
                    source_url: transfer.url,
                    path: transfer.destination,
                    bytes: transfer.written,
                },
            ),
        ),
    }
}

fn textual(content_type: &Option<String>) -> (out: bool)
    ensures
        out == is_textual(content_type.deep_view()),
{
    match content_type {
        Some(value) => {
            let value = text::to_lower(value.as_str());
            text::text_starts_with(value.as_str(), "text/") || text::text_contains(
                value.as_str(),
                "json",
            )
        },
        None => false,
    }
}

/// Decides what is wrong with an answer of the server.
pub fn check_response(status: u16, content_type: &Option<String>) -> (out: Option<XReadError>)
    ensures
        out.deep_view() == response_check(status, content_type.deep_view()),
{
    if status < 200 || status > 299 {
        let number = text::number_text(status as u64);
        let message = text::cat3("视频服务器返回 HTTP ", number.as_str(), "。");
        Some(XReadError::upstream(message.as_str()).with_upstream_status(status))
    } else if textual(content_type) {
        Some(XReadError::invalid_response("视频地址返回了文本而不是媒体文件。"))
    } else {
        None
    }
}

fn describe_incomplete(expected: u64, written: u64) -> (out: XReadError)
    ensures
        out.deep_view() == incomplete_error(expected, written),
{
    let expected = text::number_text(expected);
    let written = text::number_text(written);
    let message = text::cat5(
        "视频下载不完整：预期 ",
        expected.as_str(),
        " 字节，实际收到 ",
        written.as_str(),
        " 字节。",
    );
    XReadError::upstream(message.as_str())
}

/// Makes the transfers of the targets. There are none unless every destination
/// can be used.
pub fn plan_transfers(targets: &Vec<Target>, force: bool) -> (out: Result<Vec<Transfer>, XReadError>)
    ensures
        result_model(out) == transfers_for(targets.deep_view(), force),
{
    let ghost model = targets.deep_view();
    let ghost wanted = model.map_values(|target: TargetView| transfer_of(target, force));
    let mut paths: Vec<String> = Vec::new();
    let mut present: Vec<Result<bool, String>> = Vec::new();
    let mut out: Vec<Transfer> = Vec::new();
    assert(paths.deep_view() == destinations_of(model).take(0));
    assert(present_views(present@) == presence_of(model).take(0));
    assert(out.deep_view() == wanted.take(0));
    let mut i: usize = 0;
    while i < targets.len()
        invariant
            i <= targets@.len(),
            model == targets.deep_view(),
            wanted == model.map_values(|target: TargetView| transfer_of(target, force)),
            paths@.len() == i,
            present@.len() == i,
            paths.deep_view() == destinations_of(model).take(i as int),
            present_views(present@) == presence_of(model).take(i as int),
            out.deep_view() == wanted.take(i as int),
        decreases targets.len() - i,
    {
        let target = &targets[i];
        assert(model[i as int] == target.deep_view());
        let ghost paths_before = paths.deep_view();
        let ghost present_before = present_views(present@);
        let ghost before = out.deep_view();
        text::push_line(&mut paths, target.destination.clone());
        assert(paths.deep_view() == paths_before.push(target.destination@));
        let found = match &target.present {
            Ok(present) => Ok(*present),
            Err(error) => Err(error.clone()),
        };
        let ghost added = found;
        present.push(found);
        assert(present_views(present@) == present_before.push(present_view(added)));
        let transfer = Transfer::new(
            target.video.index,
            target.video.url.as_str(),
            target.destination.as_str(),
            target.temporary.as_str(),
            force,
        );
        let ghost made = transfer.deep_view();
        out.push(transfer);
        assert(out.deep_view() == before.push(made));
        assert(paths@.len() == paths.deep_view().len());
        i = i + 1;
    }
    assert(paths.deep_view() == destinations_of(model));
    assert(present_views(present@) == presence_of(model));
    assert(out.deep_view() == wanted);
    match check_destinations(&paths, force, present) {
        Ok(_) => Ok(out),
        Err(error) => Err(error),
    }
}

impl Transfer {
    /// A transfer before its first event.
    fn new(index: usize, url: &str, destination: &str, temporary: &str, force: bool) -> (out:
        Self)
        ensures
            out.deep_view() == new_transfer(index, url@, destination@, temporary@, force),
    {
        Transfer {
            index,
            url: url.to_owned(),
            destination: destination.to_owned(),
            temporary: temporary.to_owned(),
            force,
            phase: Phase::Requesting,
            written: 0,
            total: None,
        }
    }

    /// Decides whether an event answers what this transfer is waiting for.
    pub fn expects(&self, event: &TransferEvent) -> (out: bool)
        ensures
            out == is_expected(self.deep_view(), event.deep_view()),
    {
        match (self.phase, event) {
            (Phase::Over, _) => false,
            (phase, TransferEvent::Failed(_)) => match phase {
                Phase::Looking => false,
                _ => true,
            },
            (Phase::Requesting, TransferEvent::Responded { .. }) => true,
            (Phase::Creating, TransferEvent::Done) => true,
            (Phase::Receiving, TransferEvent::Chunk(bytes)) => *bytes <= u64::MAX - self.written,
            (Phase::Receiving, TransferEvent::Ended) => true,
            (Phase::Writing(bytes), TransferEvent::Done) => bytes <= u64::MAX - self.written,
            (Phase::Flushing, TransferEvent::Done) => true,
            (Phase::Looking, TransferEvent::Present(_)) => true,
            (Phase::Replacing, TransferEvent::Done) => true,
            (Phase::Renaming, TransferEvent::Done) => true,
            _ => false,
        }
    }

    fn describe_failure(&self, error: &str) -> (out: XReadError)
        ensures
            out.deep_view() == phase_error(self.deep_view(), error@),
    {
        let temporary = self.temporary.as_str();
        let destination = self.destination.as_str();
        match self.phase {
            Phase::Requesting => XReadError::upstream(
                text::cat2("视频下载请求失败：", error).as_str(),
            ),
            Phase::Creating => XReadError::internal(
                text::cat4("无法创建临时文件 ", temporary, "：", error).as_str(),
            ),
            Phase::Receiving => XReadError::upstream(
                text::cat2("视频下载中断：", error).as_str(),
            ),
            Phase::Writing(_) => XReadError::internal(
                text::cat4("无法写入 ", temporary, "：", error).as_str(),
            ),
            Phase::Flushing => XReadError::internal(
                text::cat4("无法刷新 ", temporary, "：", error).as_str(),
            ),
            Phase::Replacing => XReadError::internal(
                text::cat4("无法覆盖 ", destination, "：", error).as_str(),
            ),
            _ => XReadError::internal(
                text::cat4("无法将下载结果保存为 ", destination, "：", error).as_str(),
            ),
        }
    }

    /// Takes an event that this transfer is waiting for, and says what to
    /// report and what to do next.
    pub fn advance(&mut self, event: TransferEvent) -> (out: (Option<DownloadEvent>, TransferAction))
        requires
            is_expected(old(self).deep_view(), event.deep_view()),
        ensures
            (final(self).deep_view(), out.0.deep_view(), out.1.deep_view()) == advance(
                old(self).deep_view(),
                event.deep_view(),
            ),
    {
        if let TransferEvent::Failed(error) = &event {
            let failure = self.describe_failure(error.as_str());
            self.phase = Phase::Over;
            return (None, TransferAction::Fail(failure));
        }
        match self.phase {
            Phase::Requesting => {
                if let TransferEvent::Responded { status, content_type, total } = event {
                    if let Some(error) = check_response(status, &content_type) {
                        self.phase = Phase::Over;
                        return (None, TransferAction::Fail(error));
                    }
                    self.phase = Phase::Creating;
                    self.total = total;
                    let report = DownloadEvent::Started {
                        index: self.index,
                        path: self.destination.clone(),
                        total_bytes: total,
                    };
                    return (Some(report), TransferAction::Create);
                }
                (None, TransferAction::Create)
            },
            Phase::Creating => {
                self.phase = Phase::Receiving;
                (None, TransferAction::Receive)
            },
            Phase::Receiving => {
                if let TransferEvent::Chunk(bytes) = event {
                    self.phase = Phase::Writing(bytes);
                    return (None, TransferAction::Write);
                }
                if let Some(expected) = self.total {
                    if expected != self.written {
                        self.phase = Phase::Over;
                        let error = describe_incomplete(expected, self.written);
                        return (None, TransferAction::Fail(error));
                    }
                }
                self.phase = Phase::Flushing;
                (None, TransferAction::Flush)
            },
            Phase::Writing(bytes) => {
                self.phase = Phase::Receiving;
                self.written = self.written + bytes;
                let report = DownloadEvent::Progress {
                    index: self.index,
                    downloaded_bytes: self.written,
                    total_bytes: self.total,
                };
                (Some(report), TransferAction::Receive)
            },
            Phase::Flushing => {
                if self.force {
                    self.phase = Phase::Looking;
                    (None, TransferAction::Look)
                } else {
                    self.phase = Phase::Renaming;
                    (None, TransferAction::Rename)
                }
            },
            Phase::Looking => {
                if let TransferEvent::Present(present) = event {
                    if present {
                        self.phase = Phase::Replacing;
                        return (None, TransferAction::RemoveOld);
                    }
                }
                self.phase = Phase::Renaming;
                (None, TransferAction::Rename)
            },
            Phase::Replacing => {
                self.phase = Phase::Renaming;
                (None, TransferAction::Rename)
            },
            _ => {
                self.phase = Phase::Over;
                let report = DownloadEvent::Finished {
                    index: self.index,
                    path: self.destination.clone(),
                    bytes: self.written,
                };
                let video = DownloadedVideo {
                    index: self.index,
                    source_url: self.url.clone(),
                    path: self.destination.clone(),
                    bytes: self.written,
                };
                (Some(report), TransferAction::Finish(video))
            },
        }
    }
}

// ----------------------------------------------------------------------
// Laws

/// A transfer after the events, one after the other.
pub open spec fn run(start: TransferView, events: Seq<TransferEventView>) -> TransferView
    decreases events.len(),
{
    if events.len() == 0 {
        start
    } else {
        advance(run(start, events.drop_last()), events.last()).0
    }
}

/// Whether each of the events was waited for.
pub open spec fn were_expected(start: TransferView, events: Seq<TransferEventView>) -> bool
    decreases events.len(),
{
    events.len() == 0 || (were_expected(start, events.drop_last()) && is_expected(
        run(start, events.drop_last()),
        events.last(),
    ))
}

/// How many bytes came with the chunks.
pub open spec fn received(events: Seq<TransferEventView>) -> nat
    decreases events.len(),
{
    if events.len() == 0 {
        0
    } else {
        received(events.drop_last()) + (match events.last() {
            TransferEventView::Chunk(bytes) => bytes as nat,
            _ => 0,
        })
    }
}

/// Whether all bytes are in, as far as a transfer can know.
pub open spec fn past_receiving(phase: Phase) -> bool {
    phase == Phase::Flushing || phase == Phase::Looking || phase == Phase::Replacing || phase
        == Phase::Renaming
}

/// What a transfer has written and is about to write is what came, and once it
/// is past receiving that is all that the server announced.
proof fn lemma_bytes_are_accounted_for(
    index: usize,
    url: Seq<char>,
    destination: Seq<char>,
    temporary: Seq<char>,
    force: bool,
    events: Seq<TransferEventView>,
)
    requires
        were_expected(new_transfer(index, url, destination, temporary, force), events),
    ensures
        ({
            let transfer = run(new_transfer(index, url, destination, temporary, force), events);
            &&& transfer.index == index && transfer.url == url && transfer.destination
                == destination && transfer.force == force
            &&& transfer.phase matches Phase::Writing(bytes) ==> transfer.written + bytes
                == received(events)
            &&& !(transfer.phase is Writing) && transfer.phase != Phase::Over
                ==> transfer.written == received(events)
            &&& past_receiving(transfer.phase) ==> is_complete(transfer)
        }),
    decreases events.len(),
{
    if events.len() > 0 {
        lemma_bytes_are_accounted_for(index, url, destination, temporary, force, events.drop_last());
    }
}

/// Whatever the order in which things happen to a transfer, the temporary file
/// gets its final name, and an old file is removed, only when every byte that
/// came is written and no byte that the server announced is missing. An old
/// file is removed only where that was asked for. What is handed out in the end
/// has the number of bytes that came, and after an error there is nothing more
/// to do.
pub proof fn law_only_whole_videos_are_kept(
    index: usize,
    url: Seq<char>,
    destination: Seq<char>,
    temporary: Seq<char>,
    force: bool,
    events: Seq<TransferEventView>,
    event: TransferEventView,
)
    requires
        were_expected(
            new_transfer(index, url, destination, temporary, force),
            events.push(event),
        ),
    ensures
        ({
            let before = run(new_transfer(index, url, destination, temporary, force), events);
            let (after, report, action) = advance(before, event);
            &&& action is Rename || action is RemoveOld || action is Finish ==> is_complete(after)
                && after.written == received(events)
            &&& action is RemoveOld ==> force
            &&& action matches ActionView::Finish(video) ==> video == (DownloadedView {
                index,
                source_url: url,
                path: destination,
                bytes: received(events) as u64,
            })
            &&& action is Finish || action is Fail ==> after.phase == Phase::Over
        }),
{
    assert(events.push(event).drop_last() == events);
    lemma_bytes_are_accounted_for(index, url, destination, temporary, force, events);
}

proof fn lemma_sanitized_is_safe(value: Seq<char>)
    ensures
        safe_part(value).len() > 0,
        forall|i: int| 0 <= i < safe_part(value).len() ==> is_safe(#[trigger] safe_part(value)[i]),
{
    let clean = sanitized(value);
    let (from, to) = text::lemma_trim_is_a_part(clean, text::among(seq!['_']));
    reveal_strlit("x");
}

/// A file name holds nothing but ASCII letters, digits, `-`, `_` and `.`, and
/// does not begin with a dot: it names a visible file in the output directory,
/// whatever the name of the user.
pub proof fn law_file_names_are_safe(username: Seq<char>, post_id: Seq<char>, index: usize)
    requires
        text::all_digits(post_id),
    ensures
        ({
            let name = file_name(username, post_id, index);
            &&& name.len() > 0
            &&& name[0] != '.'
            &&& forall|i: int|
                0 <= i < name.len() ==> is_safe(#[trigger] name[i]) || name[i] == '.'
        }),
{
    let user = safe_part(username);
    let number = text::decimal(index as nat);
    let name = file_name(username, post_id, index);
    lemma_sanitized_is_safe(username);
    text::law_decimal_round_trip(index as nat);
    reveal_strlit("-");
    reveal_strlit(".mp4");
    assert(name[0] == user[0]);
    let a = user.len() as int;
    let b = a + 1 + post_id.len();
    let c = b + 1 + number.len();
    assert forall|i: int| 0 <= i < name.len() implies is_safe(#[trigger] name[i]) || name[i]
        == '.' by {
        if i < a {
            assert(name[i] == user[i]);
        } else if a < i < b {
            assert(name[i] == post_id[i - a - 1]);
        } else if b < i < c {
            assert(name[i] == number[i - b - 1]);
        } else if i >= c {
            assert(name[i] == ".mp4"@[i - c]);
        }
    }
}

/// Two videos of a post have two files.
pub proof fn law_files_are_distinct(
    username: Seq<char>,
    post_id: Seq<char>,
    first: usize,
    second: usize,
)
    requires
        first != second,
    ensures
        file_name(username, post_id, first) != file_name(username, post_id, second),
{
    let front = safe_part(username) + "-"@ + post_id + "-"@;
    let a = text::decimal(first as nat);
    let b = text::decimal(second as nat);
    let one = file_name(username, post_id, first);
    let other = file_name(username, post_id, second);
    text::law_decimal_round_trip(first as nat);
    text::law_decimal_round_trip(second as nat);
    reveal_strlit(".mp4");
    if one == other {
        assert(one.subrange(front.len() as int, one.len() - 4) == a);
        assert(other.subrange(front.len() as int, other.len() - 4) == b);
    }
}

/// A temporary file is hidden, ends in `.part`, and has another name than any
/// file of a video.
pub proof fn law_temporary_files_are_private(
    name: Seq<char>,
    process: u32,
    nonce: Seq<char>,
    username: Seq<char>,
    post_id: Seq<char>,
    index: usize,
)
    requires
        text::all_digits(post_id),
    ensures
        temporary_file(name, process, nonce)[0] == '.',
        text::ends_with(temporary_file(name, process, nonce), ".part"@),
        temporary_file(name, process, nonce) != file_name(username, post_id, index),
{
    reveal_strlit(".");
    let temporary = temporary_file(name, process, nonce);
    assert(temporary[0] == '.');
    law_file_names_are_safe(username, post_id, index);
    let front = "."@ + name + "."@ + text::decimal(process as nat) + "."@ + nonce;
    assert(temporary.subrange(temporary.len() - ".part"@.len(), temporary.len() as int)
        == ".part"@);
}

/// Nothing is fetched unless everything can be saved: there are transfers only
/// where every destination can be used, and then one for every video; else
/// there is the error of the first destination that cannot.
pub proof fn law_destinations_are_checked_first(targets: Seq<TargetView>, force: bool) -> (at: int)
    ensures
        match transfers_for(targets, force) {
            Ok(transfers) => {
                &&& transfers.len() == targets.len()
                &&& forall|i: int|
                    0 <= i < targets.len() ==> {
                        &&& destination_check(
                            (#[trigger] targets[i]).destination,
                            force,
                            targets[i].present,
                        ) is Ok
                        &&& transfers[i] == transfer_of(targets[i], force)
                    }
            },
            Err(error) => {
                &&& 0 <= at < targets.len()
                &&& destination_check(targets[at].destination, force, targets[at].present)
                    == Err::<(), ErrorView>(error)
                &&& forall|i: int|
                    0 <= i < at ==> destination_check(
                        (#[trigger] targets[i]).destination,
                        force,
                        targets[i].present,
                    ) is Ok
            },
        },
{
    let paths = destinations_of(targets);
    let present = presence_of(targets);
    let at = lemma_destinations(paths, force, present);
    assert forall|i: int| 0 <= i < targets.len() implies (#[trigger] targets[i]).destination
        == paths[i] && targets[i].present == present[i] by {}
    at
}

/// What is not trimmed away at either end stays.
proof fn lemma_nothing_to_trim(s: Seq<char>, c: char)
    requires
        s.len() > 0,
        s[0] != c,
        s.last() != c,
    ensures
        text::trim_by(s, text::among(seq![c])) == s,
{
    let p = text::among(seq![c]);
    assert(!p(s[0]));
    assert(!p(s.last()));
    assert(text::trim_start_by(s, p) == s);
}

/// A file is named after the user, the post and the position: a user name of
/// letters and digits stands in it as it is, and one without any is an `x`.
pub proof fn law_files_are_named_after_user_post_and_position(
    username: Seq<char>,
    id: Seq<char>,
    index: usize,
)
    ensures
        username.len() > 0 && (forall|i: int|
            0 <= i < username.len() ==> text::is_letter(#[trigger] username[i]) || text::is_digit(
                username[i],
            )) ==> file_name(username, id, index) == username + "-"@ + id + "-"@ + text::decimal(
            index as nat,
        ) + ".mp4"@,
        username.len() == 0 ==> file_name(username, id, index) == "x"@ + "-"@ + id + "-"@
            + text::decimal(index as nat) + ".mp4"@,
{
    if username.len() == 0 {
        assert(sanitized(username) == Seq::<char>::empty());
        assert(text::trim_start_by(sanitized(username), text::among(seq!['_']))
            == Seq::<char>::empty());
    } else if forall|i: int|
        0 <= i < username.len() ==> text::is_letter(#[trigger] username[i]) || text::is_digit(
            username[i],
        ) {
        assert(sanitized(username) == username);
        assert(text::is_letter(username[0]) || text::is_digit(username[0]));
        let last = username.len() - 1;
        assert(text::is_letter(username[last]) || text::is_digit(username[last]));
        lemma_nothing_to_trim(username, '_');
    }
}

/// A download is planned for every video or for the one asked for, each with its
/// position from one on, its URL and its own file.
pub proof fn law_plans_are_for_the_videos_of_the_post(
    post: PostView,
    reference: ReferenceView,
    quality: VideoQuality,
    requested: Option<usize>,
    at: int,
)
    ensures
        ({
            let urls = video::post_urls(post, quality);
            let plan = plan_for(post, reference, quality, requested);
            let username = match post.author.username {
                Some(username) => username,
                None => match reference.username {
                    Some(username) => username,
                    None => "x"@,
                },
            };
            &&& urls.len() == 0 ==> (plan matches Err(error) && error.kind == ErrorKind::NoVideo)
            &&& urls.len() > 0 && requested is None && urls.len() <= usize::MAX ==> (
            plan matches Ok(files) && files.len() == urls.len() && (0 <= at < urls.len() ==> {
                &&& files[at].index == at + 1
                &&& files[at].url == urls[at]
                &&& files[at].file_name == file_name(username, reference.id, (at + 1) as usize)
            }))
            &&& urls.len() > 0 ==> (requested matches Some(index) ==> (1 <= index <= urls.len() ==> (
            plan matches Ok(files) && files.len() == 1 && files[0].index == index && files[0].url
                == urls[index - 1] && files[0].file_name == file_name(
                username,
                reference.id,
                index,
            ))))
            &&& urls.len() > 0 ==> (requested matches Some(index) ==> (index == 0 || index
                > urls.len() ==> (plan matches Err(error) && error.kind
                == ErrorKind::InvalidInput)))
        }),
{
}

/// A destination can be used where no file is or where files may be replaced;
/// else the error names it.
pub proof fn law_files_are_not_replaced(
    path: Seq<char>,
    force: bool,
    present: Result<bool, Seq<char>>,
)
    ensures
        destination_check(path, force, present) is Ok <==> force || present == Ok::<
            bool,
            Seq<char>,
        >(false),
        destination_check(path, force, present) matches Err(error) ==> {
            &&& text::contains(error.message, path)
            &&& present is Ok ==> error.kind == ErrorKind::InvalidInput
            &&& present matches Err(reason) ==> error.kind == ErrorKind::Internal
                && text::contains(error.message, reason)
        },
{
    text::lemma_contains_middle("文件已存在："@, path, "。如需覆盖，请加 --force。"@);
    if let Err(reason) = present {
        text::lemma_contains_middle("无法检查 "@, path, "："@ + reason);
        shown::lemma_sum("无法检查 "@ + path, "："@, reason);
        shown::lemma_at_end("无法检查 "@ + path + "："@, reason);
    }
}

/// An answer is taken where its status is a success and its type is not that of
/// a text; the status of another answer is told.
pub proof fn law_only_media_are_taken(status: u16, content_type: Option<Seq<char>>)
    ensures
        200 <= status <= 299 && content_type is None ==> response_check(status, content_type)
            is None,
        200 <= status <= 299 && content_type == Some("video/mp4"@) ==> response_check(
            status,
            content_type,
        ) is None,
        status < 200 || status > 299 ==> (response_check(status, content_type) matches Some(error)
            && error.kind == ErrorKind::Upstream && error.upstream_status == Some(status)
            && text::contains(error.message, text::decimal(status as nat))),
        content_type matches Some(kind) ==> (200 <= status <= 299 && kind.len() >= 5 && text::lower(
            kind[0],
        ) == 't' && text::lower(kind[1]) == 'e' && text::lower(kind[2]) == 'x' && text::lower(
            kind[3],
        ) == 't' && kind[4] == '/' ==> (response_check(status, content_type) matches Some(error)
            && error.kind == ErrorKind::InvalidResponse)),
        200 <= status <= 299 && content_type == Some("application/json"@) ==> (response_check(
            status,
            content_type,
        ) matches Some(error) && error.kind == ErrorKind::InvalidResponse),
{
    text::lemma_contains_middle("视频服务器返回 HTTP "@, text::decimal(status as nat), "。"@);
    reveal_strlit("text/");
    if let Some(kind) = content_type {
        let lowered = text::lower_case(kind);
        if kind.len() >= 5 && text::lower(kind[0]) == 't' && text::lower(kind[1]) == 'e'
            && text::lower(kind[2]) == 'x' && text::lower(kind[3]) == 't' && kind[4] == '/' {
            assert(lowered.subrange(0, 5) == "text/"@);
        }
    }
    lemma_media_types();
}

proof fn lemma_media_types()
    ensures
        !is_textual(Some("video/mp4"@)),
        is_textual(Some("application/json"@)),
{
    reveal_strlit("text/");
    reveal_strlit("json");
    reveal_strlit("video/mp4");
    reveal_strlit("application/json");
    let mp4 = text::lower_case("video/mp4"@);
    assert("text/"@.len() == 5 && "json"@.len() == 4);
    assert(mp4 == "video/mp4"@);
    assert(mp4[0] == 'v' && "text/"@[0] == 't');
    if text::starts_with(mp4, "text/"@) {
        assert(mp4.subrange(0, 5)[0] == 't');
    }
    if text::contains(mp4, "json"@) {
        let at = choose|at: int| text::occurs_at(mp4, "json"@, at);
        assert(mp4.subrange(at, at + 4)[0] == mp4[at]);
        assert("json"@[0] == 'j');
        assert(mp4[at] == 'j');
        assert(0 <= at <= 5);
        assert(mp4[0] == 'v' && mp4[1] == 'i' && mp4[2] == 'd' && mp4[3] == 'e' && mp4[4] == 'o'
            && mp4[5] == '/');
    }
    let document = text::lower_case("application/json"@);
    assert(document == "application/json"@);
    assert(document.subrange(12, 16) == "json"@);
    assert(text::occurs_at(document, "json"@, 12));
}

/// A transfer asks, creates its file, receives and writes until nothing more
/// comes, saves and renames: its bytes are counted, what it reports is about its
/// own video, and it ends with the file at its destination.
pub proof fn law_transfers_go_step_by_step(transfer: TransferView, total: Option<u64>, bytes: u64)
    requires
        transfer.written + bytes <= u64::MAX,
    ensures
        transfer.phase == Phase::Requesting ==> {
            let answer = TransferEventView::Responded { status: 200, content_type: None, total };
            let (next, event, action) = advance(transfer, answer);
            &&& next == (TransferView { phase: Phase::Creating, total, ..transfer })
            &&& event == Some(
                EventView::Started {
                    index: transfer.index,
                    path: transfer.destination,
                    total_bytes: total,
                },
            )
            &&& action is Create
        },
        transfer.phase == Phase::Creating ==> advance(transfer, TransferEventView::Done) == (
            TransferView { phase: Phase::Receiving, ..transfer },
            None::<EventView>,
            ActionView::Receive,
        ),
        transfer.phase == Phase::Receiving ==> advance(transfer, TransferEventView::Chunk(bytes))
            == (
            TransferView { phase: Phase::Writing(bytes), ..transfer },
            None::<EventView>,
            ActionView::Write,
        ),
        transfer.phase == Phase::Writing(bytes) ==> {
            let (next, event, action) = advance(transfer, TransferEventView::Done);
            &&& next.written == transfer.written + bytes
            &&& next.phase == Phase::Receiving
            &&& event == Some(
                EventView::Progress {
                    index: transfer.index,
                    downloaded_bytes: next.written,
                    total_bytes: transfer.total,
                },
            )
            &&& action is Receive
        },
        transfer.phase == Phase::Receiving && (transfer.total is None || transfer.total == Some(
            transfer.written,
        )) ==> advance(transfer, TransferEventView::Ended).2 is Flush,
        transfer.phase == Phase::Receiving ==> (transfer.total matches Some(expected) ==> (expected
            != transfer.written ==> (advance(
            transfer,
            TransferEventView::Ended,
        ).2 matches ActionView::Fail(error) && error.kind == ErrorKind::Upstream))),
        transfer.phase == Phase::Flushing && !transfer.force ==> advance(
            transfer,
            TransferEventView::Done,
        ).2 is Rename,
        transfer.phase == Phase::Flushing && transfer.force ==> advance(
            transfer,
            TransferEventView::Done,
        ).2 is Look,
        transfer.phase == Phase::Looking ==> advance(
            transfer,
            TransferEventView::Present(true),
        ).2 is RemoveOld && advance(transfer, TransferEventView::Present(false)).2 is Rename,
        transfer.phase == Phase::Replacing ==> advance(transfer, TransferEventView::Done).2
            is Rename,
        transfer.phase == Phase::Renaming ==> {
            let (next, event, action) = advance(transfer, TransferEventView::Done);
            &&& next.phase == Phase::Over
            &&& event == Some(
                EventView::Finished {
                    index: transfer.index,
                    path: transfer.destination,
                    bytes: transfer.written,
                },
            )
            &&& action == ActionView::Finish(
                DownloadedView {
                    index: transfer.index,
                    source_url: transfer.url,
                    path: transfer.destination,
                    bytes: transfer.written,
                },
            )
        },
{
}

/// A failure ends a transfer and is told: as one of the service where bytes were
/// to come, and as one of this machine where they were to be saved.
pub proof fn law_failures_end_a_transfer(transfer: TransferView, reason: Seq<char>)
    ensures
        ({
            let (next, event, action) = advance(transfer, TransferEventView::Failed(reason));
            &&& next.phase == Phase::Over
            &&& event is None
            &&& action matches ActionView::Fail(error) && text::contains(error.message, reason)
                && (transfer.phase == Phase::Requesting || transfer.phase == Phase::Receiving
                ==> error.kind == ErrorKind::Upstream) && (transfer.phase != Phase::Requesting
                && transfer.phase != Phase::Receiving ==> error.kind == ErrorKind::Internal)
        }),
{
    shown::lemma_at_end("视频下载请求失败："@, reason);
    shown::lemma_at_end("视频下载中断："@, reason);
    shown::lemma_at_end("无法创建临时文件 "@ + transfer.temporary + "："@, reason);
    shown::lemma_at_end("无法写入 "@ + transfer.temporary + "："@, reason);
    shown::lemma_at_end("无法刷新 "@ + transfer.temporary + "："@, reason);
    shown::lemma_at_end("无法覆盖 "@ + transfer.destination + "："@, reason);
    shown::lemma_at_end("无法将下载结果保存为 "@ + transfer.destination + "："@, reason);
}

/// In the name of a file a safe character stays and any other is an underscore,
/// but none stands at either end of the user's name.
pub proof fn law_unsafe_characters_become_underscores(
    front: Seq<char>,
    c: char,
    back: Seq<char>,
    id: Seq<char>,
    index: usize,
)
    requires
        front.len() > 0,
        back.len() > 0,
        front[0] != '_',
        back.last() != '_',
        forall|i: int|
            0 <= i < front.len() ==> text::is_letter(#[trigger] front[i]) || text::is_digit(front[i])
                || front[i] == '-' || front[i] == '_',
        forall|i: int|
            0 <= i < back.len() ==> text::is_letter(#[trigger] back[i]) || text::is_digit(back[i])
                || back[i] == '-' || back[i] == '_',
        !text::is_letter(c) && !text::is_digit(c) && c != '-',
    ensures
        file_name(front + seq![c] + back, id, index) == front + seq!['_'] + back + "-"@ + id + "-"@
            + text::decimal(index as nat) + ".mp4"@,
        file_name(seq![c] + front + back + seq![c], id, index) == front + back + "-"@ + id + "-"@
            + text::decimal(index as nat) + ".mp4"@,
{
    let name = front + seq![c] + back;
    let clean = front + seq!['_'] + back;
    assert(sanitized(name) == clean);
    assert(clean[0] == front[0] && clean.last() == back.last());
    lemma_nothing_to_trim(clean, '_');
    let wrapped = seq![c] + front + back + seq![c];
    let shown = front + back;
    let marked = seq!['_'] + shown + seq!['_'];
    assert(sanitized(wrapped) == marked);
    let p = text::among(seq!['_']);
    assert(seq!['_'][0] == '_');
    assert(p('_'));
    assert(marked[0] == '_');
    assert(marked.drop_first() == shown + seq!['_']);
    assert((shown + seq!['_'])[0] == front[0]);
    assert(!p(front[0]));
    assert(text::trim_start_by(marked.drop_first(), p) == shown + seq!['_']);
    assert(text::trim_start_by(marked, p) == shown + seq!['_']);
    assert((shown + seq!['_']).last() == '_');
    assert((shown + seq!['_']).drop_last() == shown);
    assert(shown.last() == back.last());
    assert(!p(shown.last()));
    assert(text::trim_end_by(shown, p) == shown);
    assert(text::trim_end_by(shown + seq!['_'], p) == shown);
}

} // verus!

//! The transcoding cache: how an entry is named, how the transcoder is
//! invoked and judged, and which entries a sweep removes.

use vstd::prelude::*;
use vstd::bytes::*;
use sha2::{Digest, Sha256};
use crate::animation::Animation;
use crate::cache_sweep::{sorted_by_age, total_size, CacheEntry, SweepLimits, SweepWalk};
use crate::config::Config;
use crate::text::{
    decimal, decimal_string, hex_of, hex_prefix, join_path, joined, str_equals, texts,
};

verus! {

/// Seconds after which a running transcode counts as failed.
pub const TRANSCODE_TIMEOUT_SECS: u64 = 300;

/// Number of digest bytes that make up a cache key; the key has twice as
/// many hexadecimal digits.
pub const CACHE_KEY_BYTES: usize = 8;

/// Bytes in a megabyte of cache budget.
pub const BYTES_PER_MB: u128 = 1048576;

/// Nanoseconds in a day of cache age.
pub const NANOS_PER_DAY: u128 = 86400000000000;

/// The SHA-256 digest of a message.
pub uninterp spec fn sha256_digest(data: Seq<u8>) -> Seq<u8>;

/// Calls `Sha256::digest` of the sha2 crate on the whole message. Trusted:
/// the result is the 32-byte SHA-256 digest of the bytes, a function of the
/// bytes alone.
#[verifier::external_body]
fn sha256(data: &Vec<u8>) -> (digest: Vec<u8>)
    ensures
        digest@ == sha256_digest(data@),
        digest@.len() == 32,
{
    Sha256::digest(data.as_slice()).to_vec()
}

/// The transcoding settings as they enter a cache key: the duration limit
/// in eight bytes, then width, height and quality in four bytes each, all
/// little-endian.
pub open spec fn settings_material(max_duration: u64, width: u32, height: u32, quality: u32) -> Seq<
    u8,
> {
    spec_u64_to_le_bytes(max_duration) + spec_u32_to_le_bytes(width) + spec_u32_to_le_bytes(height)
        + spec_u32_to_le_bytes(quality)
}

/// What identifies a source file in a cache key: its path in UTF-8, its
/// length in eight little-endian bytes and, where it is known, its
/// modification time in whole seconds in eight more.
pub open spec fn source_material(
    path: Seq<char>,
    source_len: u64,
    modified_secs: Option<u64>,
) -> Seq<u8> {
    vstd::utf8::encode_utf8(path) + spec_u64_to_le_bytes(source_len) + match modified_secs {
        Some(secs) => spec_u64_to_le_bytes(secs),
        None => Seq::empty(),
    }
}

/// The message that is hashed into a cache key.
pub open spec fn key_material(
    path: Seq<char>,
    source_len: u64,
    modified_secs: Option<u64>,
    max_duration: u64,
    width: u32,
    height: u32,
    quality: u32,
) -> Seq<u8> {
    source_material(path, source_len, modified_secs) + settings_material(
        max_duration,
        width,
        height,
        quality,
    )
}

/// The cache key that belongs to a digest: its first eight bytes in
/// hexadecimal.
pub open spec fn key_of_digest(digest: Seq<u8>) -> Seq<char> {
    hex_of(digest.take(crate::text::prefix_len(digest.len() as int, CACHE_KEY_BYTES as int)))
}

/// The file into which an entry is transcoded before it is published under
/// its own name.
pub open spec fn staging_of(path: Seq<char>) -> Seq<char> {
    path + ".partial"@
}

/// Turns a digest into a cache key: sixteen hexadecimal digits, fewer only
/// where the digest is shorter than eight bytes.
pub fn key_from_digest(digest: &Vec<u8>) -> (key: String)
    ensures
        key@ == key_of_digest(digest@),
{
    hex_prefix(digest, CACHE_KEY_BYTES)
}

/// What the cache answers for one animation.
#[derive(Debug)]
pub enum CacheLookup {
    /// The entry exists; nothing is transcoded.
    Hit(String),
    /// The entry is missing. The source has to be transcoded into
    /// `staging`, which becomes `target` only once the run has been judged
    /// good.
    Miss { target: String, staging: String },
}

/// What the cache answers for an entry, given whether its file exists.
pub open spec fn lookup_of(path: Seq<char>, exists: bool, answer: CacheLookup) -> bool {
    match answer {
        CacheLookup::Hit(p) => exists && p@ == path,
        CacheLookup::Miss { target, staging } => {
            &&& !exists
            &&& target@ == path
            &&& staging@ == staging_of(path)
        },
    }
}

/// What becomes of the file a transcoder run has written.
#[derive(Debug, Clone, Copy, PartialEq, Eq, Structural)]
pub enum OutputAction {
    /// The file is complete: rename it to the entry's own name.
    Publish,
    /// The file is partial, empty or missing: remove what is there. No
    /// entry comes of it.
    Discard,
}

/// How a run of the transcoder ended.
#[derive(Debug, Clone, Copy, PartialEq, Eq, Structural)]
pub enum TranscodeReport {
    /// The run was cut off at the time limit.
    TimedOut,
    /// The transcoder could not be started.
    NotStarted,
    /// The transcoder exited; `success` is its exit status, `output_len`
    /// the size of the output file where one exists.
    Exited { success: bool, output_len: Option<u64> },
}

/// Why a transcode does not count.
#[derive(Debug, Clone, Copy, PartialEq, Eq, Structural)]
pub enum TranscodeError {
    TimedOut,
    NotStarted,
    ToolFailed,
    OutputMissing,
    OutputEmpty,
}

/// The verdict on a run of the transcoder: only a run that exited with
/// success and left a file that is not empty counts.
pub open spec fn verdict(report: TranscodeReport) -> Result<(), TranscodeError> {
    match report {
        TranscodeReport::TimedOut => Err(TranscodeError::TimedOut),
        TranscodeReport::NotStarted => Err(TranscodeError::NotStarted),
        TranscodeReport::Exited { success, output_len } => if !success {
            Err(TranscodeError::ToolFailed)
        } else {
            match output_len {
                None => Err(TranscodeError::OutputMissing),
                Some(len) => if len == 0 {
                    Err(TranscodeError::OutputEmpty)
                } else {
                    Ok(())
                },
            }
        },
    }
}

/// What becomes of the output of a run: it is published exactly when the
/// verdict is good.
pub open spec fn output_action(report: TranscodeReport) -> OutputAction {
    if verdict(report) is Ok {
        OutputAction::Publish
    } else {
        OutputAction::Discard
    }
}

/// The scale-and-pad filter for a frame of the given size.
pub open spec fn scale_filter(width: u32, height: u32) -> Seq<char> {
    "scale="@ + decimal(width as nat) + ":"@ + decimal(height as nat)
        + ":force_original_aspect_ratio=decrease,pad="@ + decimal(width as nat) + ":"@ + decimal(
        height as nat,
    ) + ":-1:-1:black"@
}

/// The arguments of one transcoder run.
pub open spec fn transcode_args(
    input: Seq<char>,
    output: Seq<char>,
    max_duration: u64,
    width: u32,
    height: u32,
    quality: u32,
) -> Seq<Seq<char>> {
    seq![
        "-y"@,
        "-i"@,
        input,
        "-t"@,
        decimal(max_duration as nat),
        "-vf"@,
        scale_filter(width, height),
        "-c:v"@,
        "libvpx-vp9"@,
        "-crf"@,
        decimal(quality as nat),
        "-speed"@,
        "4"@,
        "-row-mt"@,
        "1"@,
        "-tile-columns"@,
        "2"@,
        "-frame-parallel"@,
        "1"@,
        "-c:a"@,
        "libopus"@,
        "-b:a"@,
        "64k"@,
        "-f"@,
        "webm"@,
        output,
    ]
}

/// One stream of a media file, as the probe tool reports it.
#[derive(Debug, Clone)]
pub struct ProbeStream {
    pub codec_type: String,
    pub codec_name: String,
    pub width: Option<i32>,
    pub height: Option<i32>,
}

/// Frame size and codec of a file's video stream.
#[derive(Debug, Clone)]
pub struct VideoStreamInfo {
    pub width: i32,
    pub height: i32,
    pub codec: String,
}

/// The stream is a video stream.
pub open spec fn is_video(stream: ProbeStream) -> bool {
    stream.codec_type@ == "video"@
}

/// The entries of the cache directory after an answer has been acted on
/// and, for a miss, the run of the transcoder has been settled: only a run
/// with a good verdict puts the entry in place.
pub open spec fn directory_after(
    present: Set<Seq<char>>,
    answer: CacheLookup,
    report: TranscodeReport,
) -> Set<Seq<char>> {
    match answer {
        CacheLookup::Hit(_) => present,
        CacheLookup::Miss { target, staging } => match output_action(report) {
            OutputAction::Publish => present.insert(target@),
            OutputAction::Discard => present.remove(target@),
        },
    }
}

/// Asking twice for the same entry transcodes at most once: after a hit,
/// or after a miss whose run was good, the second answer is a hit on the
/// same file. A run that failed publishes nothing: the second answer is a
/// miss again.
pub proof fn lemma_second_lookup_hits(
    path: Seq<char>,
    present: Set<Seq<char>>,
    first: CacheLookup,
    report: TranscodeReport,
    second: CacheLookup,
)
    requires
        lookup_of(path, present.contains(path), first),
        lookup_of(path, directory_after(present, first, report).contains(path), second),
    ensures
        first is Hit || verdict(report) is Ok ==> (second matches CacheLookup::Hit(file) && file@
            == path),
        first is Miss && verdict(report) is Err ==> second is Miss,
{
}

/// The hashed message tells transcoding settings apart: for one source
/// file, two settings that differ in duration limit, width, height or
/// quality never give the same message.
pub proof fn lemma_material_tells_settings_apart(
    path: Seq<char>,
    source_len: u64,
    modified_secs: Option<u64>,
    first: (u64, u32, u32, u32),
    second: (u64, u32, u32, u32),
)
    requires
        first != second,
    ensures
        key_material(path, source_len, modified_secs, first.0, first.1, first.2, first.3)
            != key_material(
            path,
            source_len,
            modified_secs,
            second.0,
            second.1,
            second.2,
            second.3,
        ),
{
    lemma_auto_spec_u64_to_from_le_bytes();
    lemma_auto_spec_u32_to_from_le_bytes();
    let source = source_material(path, source_len, modified_secs);
    let a = settings_material(first.0, first.1, first.2, first.3);
    let b = settings_material(second.0, second.1, second.2, second.3);
    if source + a == source + b {
        let n = source.len() as int;
        assert(a =~= (source + a).subrange(n, n + 20));
        assert(b =~= (source + b).subrange(n, n + 20));
        assert(a.subrange(0, 8) =~= spec_u64_to_le_bytes(first.0));
        assert(b.subrange(0, 8) =~= spec_u64_to_le_bytes(second.0));
        assert(a.subrange(8, 12) =~= spec_u32_to_le_bytes(first.1));
        assert(b.subrange(8, 12) =~= spec_u32_to_le_bytes(second.1));
        assert(a.subrange(12, 16) =~= spec_u32_to_le_bytes(first.2));
        assert(b.subrange(12, 16) =~= spec_u32_to_le_bytes(second.2));
        assert(a.subrange(16, 20) =~= spec_u32_to_le_bytes(first.3));
        assert(b.subrange(16, 20) =~= spec_u32_to_le_bytes(second.3));
        assert(spec_u64_from_le_bytes(spec_u64_to_le_bytes(first.0)) == first.0);
        assert(spec_u64_from_le_bytes(spec_u64_to_le_bytes(second.0)) == second.0);
        assert(spec_u32_from_le_bytes(spec_u32_to_le_bytes(first.1)) == first.1);
        assert(spec_u32_from_le_bytes(spec_u32_to_le_bytes(second.1)) == second.1);
        assert(spec_u32_from_le_bytes(spec_u32_to_le_bytes(first.2)) == first.2);
        assert(spec_u32_from_le_bytes(spec_u32_to_le_bytes(second.2)) == second.2);
        assert(spec_u32_from_le_bytes(spec_u32_to_le_bytes(first.3)) == first.3);
        assert(spec_u32_from_le_bytes(spec_u32_to_le_bytes(second.3)) == second.3);
        assert(false);
    }
}

/// The transcoding cache over one directory.
pub struct VideoProcessor {
    config: Config,
    cache_path: String,
}

impl VideoProcessor {
    /// The settings the processor was made with.
    pub closed spec fn settings(&self) -> Config {
        self.config
    }

    /// The settings the processor was made with.
    pub fn config(&self) -> (config: &Config)
        ensures
            *config == self.settings(),
    {
        &self.config
    }

    /// The directory that holds the cache entries.
    pub closed spec fn cache_root(&self) -> Seq<char> {
        self.cache_path@
    }

    /// A processor over the cache directory that the settings name.
    pub fn new(config: Config) -> (processor: VideoProcessor)
        ensures
            processor.settings() == config,
            processor.cache_root() == config.animation_cache_path@,
    {
        let cache_path = config.animation_cache_path.clone();
        VideoProcessor { config, cache_path }
    }

    /// The message hashed for a source file under this processor's
    /// settings.
    pub open spec fn material_for(
        &self,
        path: Seq<char>,
        source_len: u64,
        modified_secs: Option<u64>,
    ) -> Seq<u8> {
        key_material(
            path,
            source_len,
            modified_secs,
            self.settings().max_animation_duration,
            self.settings().target_width,
            self.settings().target_height,
            self.settings().video_quality,
        )
    }

    /// The cache key of a source file under this processor's settings.
    pub open spec fn key_for(
        &self,
        path: Seq<char>,
        source_len: u64,
        modified_secs: Option<u64>,
    ) -> Seq<char> {
        key_of_digest(sha256_digest(self.material_for(path, source_len, modified_secs)))
    }

    /// The file of the cache entry with the given key: the key is its name
    /// under the cache directory.
    pub open spec fn entry_path(&self, key: Seq<char>) -> Seq<char> {
        joined(self.cache_root(), key)
    }

    /// Computes the cache key of a source file from its path, its length
    /// and its modification time in whole seconds, together with the
    /// transcoding settings.
    pub fn generate_cache_key(
        &self,
        input_path: &str,
        source_len: u64,
        modified_secs: Option<u64>,
    ) -> (key: String)
        ensures
            key@ == self.key_for(input_path@, source_len, modified_secs),
            key@.len() == 2 * CACHE_KEY_BYTES,
    {
        let mut material: Vec<u8> = input_path.as_bytes_vec();
        let mut len_bytes = u64_to_le_bytes(source_len);
        material.append(&mut len_bytes);
        if let Some(secs) = modified_secs {
            let mut time_bytes = u64_to_le_bytes(secs);
            material.append(&mut time_bytes);
        }
        let mut duration_bytes = u64_to_le_bytes(self.config.max_animation_duration);
        material.append(&mut duration_bytes);
        let mut width_bytes = u32_to_le_bytes(self.config.target_width);
        material.append(&mut width_bytes);
        let mut height_bytes = u32_to_le_bytes(self.config.target_height);
        material.append(&mut height_bytes);
        let mut quality_bytes = u32_to_le_bytes(self.config.video_quality);
        material.append(&mut quality_bytes);
        assert(material@ =~= self.material_for(
            input_path@,
            source_len,
            modified_secs,
        ));
        let digest = sha256(&material);
        let key = key_from_digest(&digest);
        proof {
            crate::text::lemma_hex_len(digest@.take(CACHE_KEY_BYTES as int));
        }
        key
    }

    /// The file in which the entry with the given key is kept.
    pub fn cached_file(&self, key: &str) -> (path: String)
        ensures
            path@ == self.entry_path(key@),
    {
        join_path(self.cache_path.as_str(), key)
    }

    /// Answers for one animation whether its transcoded file is at hand.
    /// `source_len` and `modified_secs` describe the source file, and
    /// `exists` says whether the entry's file, as `cached_file` names it for
    /// the source's key, is present. A present file is a hit and nothing is
    /// to be transcoded; a missing one is a miss that names the entry's file
    /// and the staging file to transcode into.
    pub fn optimize_animation(
        &self,
        animation: &Animation,
        source_len: u64,
        modified_secs: Option<u64>,
        exists: bool,
    ) -> (answer: CacheLookup)
        ensures
            lookup_of(
                self.entry_path(
                    self.key_for(animation.path@, source_len, modified_secs),
                ),
                exists,
                answer,
            ),
    {
        let key = self.generate_cache_key(animation.path.as_str(), source_len, modified_secs);
        let path = self.cached_file(key.as_str());
        if exists {
            CacheLookup::Hit(path)
        } else {
            let mut staging = path.clone();
            staging.append(".partial");
            CacheLookup::Miss { target: path, staging }
        }
    }

    /// The arguments for transcoding `input` into `output`: the duration
    /// limit, a scale-and-pad filter for the target frame, VP9 at the
    /// configured quality, Opus audio and the WebM container.
    pub fn process_video_args(&self, input: &str, output: &str) -> (args: Vec<String>)
        ensures
            texts(args@) == transcode_args(
                input@,
                output@,
                self.settings().max_animation_duration,
                self.settings().target_width,
                self.settings().target_height,
                self.settings().video_quality,
            ),
    {
        let width = decimal_string(self.config.target_width as u64);
        let height = decimal_string(self.config.target_height as u64);
        let mut filter = String::from_str("scale=");
        filter.append(width.as_str());
        filter.append(":");
        filter.append(height.as_str());
        filter.append(":force_original_aspect_ratio=decrease,pad=");
        filter.append(width.as_str());
        filter.append(":");
        filter.append(height.as_str());
        filter.append(":-1:-1:black");
        let mut args: Vec<String> = Vec::new();
        args.push(String::from_str("-y"));
        args.push(String::from_str("-i"));
        args.push(String::from_str(input));
        args.push(String::from_str("-t"));
        args.push(decimal_string(self.config.max_animation_duration));
        args.push(String::from_str("-vf"));
        args.push(filter);
        args.push(String::from_str("-c:v"));
        args.push(String::from_str("libvpx-vp9"));
        args.push(String::from_str("-crf"));
        args.push(decimal_string(self.config.video_quality as u64));
        args.push(String::from_str("-speed"));
        args.push(String::from_str("4"));
        args.push(String::from_str("-row-mt"));
        args.push(String::from_str("1"));
        args.push(String::from_str("-tile-columns"));
        args.push(String::from_str("2"));
        args.push(String::from_str("-frame-parallel"));
        args.push(String::from_str("1"));
        args.push(String::from_str("-c:a"));
        args.push(String::from_str("libopus"));
        args.push(String::from_str("-b:a"));
        args.push(String::from_str("64k"));
        args.push(String::from_str("-f"));
        args.push(String::from_str("webm"));
        args.push(String::from_str(output));
        assert(texts(args@) =~= transcode_args(
            input@,
            output@,
            self.settings().max_animation_duration,
            self.settings().target_width,
            self.settings().target_height,
            self.settings().video_quality,
        ));
        args
    }

    /// Judges a run of the transcoder. A run that hit the time limit, did
    /// not start, exited with failure, or left no file or an empty one is an
    /// error; its output is no cache entry.
    pub fn process_video(&self, report: TranscodeReport) -> (result: Result<(), TranscodeError>)
        ensures
            result == verdict(report),
    {
        match report {
            TranscodeReport::TimedOut => Err(TranscodeError::TimedOut),
            TranscodeReport::NotStarted => Err(TranscodeError::NotStarted),
            TranscodeReport::Exited { success, output_len } => {
                if !success {
                    Err(TranscodeError::ToolFailed)
                } else {
                    match output_len {
                        None => Err(TranscodeError::OutputMissing),
                        Some(len) => if len == 0 {
                            Err(TranscodeError::OutputEmpty)
                        } else {
                            Ok(())
                        },
                    }
                }
            },
        }
    }

    /// The budget of a sweep at the time `now`, in nanoseconds since the
    /// epoch: the configured size limit in bytes and the configured age
    /// limit in nanoseconds.
    pub open spec fn sweep_limits(&self, now: u128) -> SweepLimits {
        SweepLimits {
            max_size: (self.settings().max_cache_size_mb * BYTES_PER_MB) as u128,
            max_age: (self.settings().cache_max_age_days * NANOS_PER_DAY) as u128,
            now,
        }
    }

    /// Starts the sweep of the cache directory from a listing of its files
    /// and the current time, under the configured budget. The walk that
    /// comes back hands out the entries to delete, oldest first.
    pub fn cleanup_cache(&self, entries: &Vec<CacheEntry>, now: u128) -> (walk: SweepWalk)
        ensures
            walk.wf(),
            walk.entries() == sorted_by_age(entries@),
            walk.limits() == self.sweep_limits(now),
            walk.position() == 0,
            !walk.awaiting(),
            walk.running_total() == total_size(walk.entries()),
    {
        let limits = SweepLimits {
            max_size: (self.config.max_cache_size_mb as u128) * BYTES_PER_MB,
            max_age: (self.config.cache_max_age_days as u128) * NANOS_PER_DAY,
            now,
        };
        SweepWalk::begin(entries, limits)
    }

    /// Says what becomes of the file a run has written: after a good run it
    /// is published under the entry's name, after any other it is removed,
    /// so that no partial or empty file is ever taken for an entry.
    pub fn settle_output(&self, report: TranscodeReport) -> (action: OutputAction)
        ensures
            action == output_action(report),
    {
        match self.process_video(report) {
            Ok(()) => OutputAction::Publish,
            Err(_) => OutputAction::Discard,
        }
    }

    /// Picks the first video stream of a probed file. A missing width or
    /// height reads as zero. `None` where the file has no video stream.
    pub fn get_video_info(&self, streams: &Vec<ProbeStream>) -> (info: Option<VideoStreamInfo>)
        ensures
            match info {
                None => forall|i: int| 0 <= i < streams@.len() ==> !is_video(#[trigger] streams@[i]),
                Some(found) => exists|i: int|
                    0 <= i < streams@.len() && is_video(#[trigger] streams@[i]) && (forall|j: int|
                        0 <= j < i ==> !is_video(#[trigger] streams@[j])) && found.codec@
                        == streams@[i].codec_name@ && found.width == streams@[i].width.unwrap_or(0)
                        && found.height == streams@[i].height.unwrap_or(0),
            },
    {
        let mut i: usize = 0;
        while i < streams.len()
            invariant
                i <= streams.len(),
                forall|j: int| 0 <= j < i ==> !is_video(#[trigger] streams@[j]),
            decreases streams.len() - i,
        {
            if str_equals(streams[i].codec_type.as_str(), "video") {
                let width: i32 = match streams[i].width {
                    Some(w) => w,
                    None => 0,
                };
                let height: i32 = match streams[i].height {
                    Some(h) => h,
                    None => 0,
                };
                return Some(
                    VideoStreamInfo { width, height, codec: streams[i].codec_name.clone() },
                );
            }
            i += 1;
        }
        None
    }
}

} // verus!

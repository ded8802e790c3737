//! Recording of what was captured and what was made of it: video through `ffmpeg`, and a table.
use crate::analyzer_consumer::{FrameResult, PixelFormat};
use crate::paths;
use crate::paths::joined;
use crate::text;
use crate::text::{decimal, decimal_int, views};
use crate::ui_state::TimingDebug;
use vstd::arithmetic::div_mod::lemma_fundamental_div_mod_converse;
use vstd::prelude::*;

verus! {

/// The first line of the table.
pub const CSV_HEADER: &'static str =
    "frame_index,timestamp_ms,raw_pixel_width,logical_frame,total_frames_in_cycle,cost_is_negative,elapsed_frames,capture_duration_us,phase,battle_state,advanced_frames,accumulator_fp,frames_until_next_cost,match_error_px,boundary_corrected\n";

/// The name that `ffmpeg` has for a pixel format.
pub open spec fn video_format(format: PixelFormat) -> Seq<char> {
    match format {
        PixelFormat::Rgba => "rgba"@,
        PixelFormat::Bgr => "bgr24"@,
        PixelFormat::Bgra => "bgra"@,
    }
}

fn pix_fmt_str(format: PixelFormat) -> (name: &'static str)
    ensures
        name@ == video_format(format),
{
    match format {
        PixelFormat::Rgba => "rgba",
        PixelFormat::Bgr => "bgr24",
        PixelFormat::Bgra => "bgra",
    }
}

pub open spec fn pixel_size(format: PixelFormat) -> int {
    match format {
        PixelFormat::Rgba => 4,
        PixelFormat::Bgr => 3,
        PixelFormat::Bgra => 4,
    }
}

fn bytes_per_pixel(format: PixelFormat) -> (n: u32)
    ensures
        n == pixel_size(format),
{
    match format {
        PixelFormat::Rgba => 4,
        PixelFormat::Bgr => 3,
        PixelFormat::Bgra => 4,
    }
}

/// The picture upside down: of `height` rows of `row` bytes the last comes first. What lies behind
/// the picture stays.
pub open spec fn flipped(picture: Seq<u8>, row: int, height: int) -> Seq<u8> {
    Seq::new(
        picture.len(),
        |i: int|
            if i < height * row {
                picture[(height - 1 - i / row) * row + i % row]
            } else {
                picture[i]
            },
    )
}

proof fn lemma_place(r: int, c: int, row: int, height: int)
    requires
        0 <= r < height,
        0 <= c < row,
    ensures
        (r * row + c) / row == r,
        (r * row + c) % row == c,
        0 <= r * row + c < height * row,
{
    lemma_fundamental_div_mod_converse(r * row + c, row, r, c);
    assert(r * row + c < height * row) by (nonlinear_arith)
        requires
            0 <= r < height,
            0 <= c < row,
    ;
    assert(0 <= r * row) by (nonlinear_arith)
        requires
            0 <= r,
            0 <= row,
    ;
}

/// Turns a picture upside down.
pub fn flip_rows(buf: &mut Vec<u8>, width: u32, height: u32, bpp: u32)
    requires
        width * bpp <= u32::MAX,
        height >= 2 ==> height * (width * bpp) <= old(buf)@.len(),
    ensures
        final(buf)@ == flipped(old(buf)@, width * bpp, height as int),
{
    let ghost picture = buf@;
    let ghost want = flipped(picture, width * bpp, height as int);
    assert(width as u64 * bpp as u64 <= u32::MAX) by (nonlinear_arith)
        requires
            width * bpp <= u32::MAX,
    ;
    let row: usize = (width as u64 * bpp as u64) as usize;
    if height < 2 || row == 0 {
        proof {
            assert(height as int * row as int == (if height == 1 {
                row as int
            } else {
                0
            })) by (nonlinear_arith)
                requires
                    height <= 1 || row == 0,
            ;
            assert forall|i: int| 0 <= i < picture.len() implies want[i] == picture[i] by {
                if i < height * row {
                    lemma_place(0, i, row as int, 1);
                }
            }
            assert(want =~= picture);
        }
        return;
    }
    let h: usize = height as usize;
    let size: usize = buf.len();
    let mut out: Vec<u8> = Vec::new();
    let mut r: usize = 0;
    assert(0 * row as int == 0);
    assert(want.take(0) =~= Seq::<u8>::empty());
    while r < h
        invariant
            r <= h,
            row > 0,
            buf@ == picture,
            h * row <= picture.len() == size,
            want == flipped(picture, row as int, h as int),
            out@ == want.take(r * row),
            0 <= r * row <= h * row,
        decreases h - r,
    {
        let mut c: usize = 0;
        proof {
            assert((r + 1) * row == r * row + row) by (nonlinear_arith);
            assert((r + 1) * row <= h * row) by (nonlinear_arith)
                requires
                    r < h,
                    row > 0,
            ;
            assert((h - 1 - r) * row + row <= h * row) by (nonlinear_arith)
                requires
                    r < h,
                    row > 0,
            ;
            assert(0 <= (h - 1 - r) * row) by (nonlinear_arith)
                requires
                    r < h,
                    row > 0,
            ;
        }
        assert((h - 1 - r) * row <= usize::MAX);
        let start: usize = (h - 1 - r) * row;
        while c < row
            invariant
                c <= row,
                r < h,
                row > 0,
                buf@ == picture,
                start == (h - 1 - r) * row,
                start + row <= h * row <= picture.len() == size,
                want == flipped(picture, row as int, h as int),
                r * row + row <= h * row,
                0 <= r * row,
                out@ == want.take(r * row + c),
            decreases row - c,
        {
            proof {
                lemma_place(r as int, c as int, row as int, h as int);
                assert(want[r * row + c] == picture[start + c]);
                assert(want.take(r * row + c + 1) =~= want.take(r * row + c).push(
                    want[r * row + c],
                ));
            }
            out.push(buf[start + c]);
            c += 1;
        }
        r += 1;
    }
    let mut i: usize = h * row;
    while i < buf.len()
        invariant
            h * row <= i <= picture.len(),
            buf@ == picture,
            want == flipped(picture, row as int, h as int),
            want.len() == picture.len(),
            out@ == want.take(i as int),
        decreases picture.len() - i,
    {
        assert(want.take(i as int + 1) =~= want.take(i as int).push(want[i as int]));
        out.push(buf[i]);
        i += 1;
    }
    assert(want.take(i as int) =~= want);
    *buf = out;
}

/// Turned upside down twice, a picture is as it was.
pub proof fn law_flipping_twice_restores(picture: Seq<u8>, row: int, height: int)
    requires
        0 <= row,
        0 <= height,
        height * row <= picture.len(),
    ensures
        flipped(flipped(picture, row, height), row, height) == picture,
{
    let once = flipped(picture, row, height);
    let twice = flipped(once, row, height);
    assert forall|i: int| 0 <= i < picture.len() implies twice[i] == picture[i] by {
        if i < height * row {
            assert(row > 0) by (nonlinear_arith)
                requires
                    0 <= i < height * row,
                    0 <= row,
                    0 <= height,
            ;
            let r = i / row;
            let c = i % row;
            assert(0 <= r < height && 0 <= c < row && i == r * row + c) by (nonlinear_arith)
                requires
                    r == i / row,
                    c == i % row,
                    0 <= i < height * row,
                    row > 0,
            ;
            lemma_place(height - 1 - r, c, row, height);
            let j = (height - 1 - r) * row + c;
            assert(twice[i] == once[j]);
            assert(once[j] == picture[(height - 1 - (height - 1 - r)) * row + c]);
        }
    }
    assert(twice =~= picture);
}

/// A number in a table, or nothing.
pub open spec fn cell(value: Option<i32>) -> Seq<char> {
    match value {
        Some(n) => decimal_int(n as int),
        None => Seq::empty(),
    }
}

pub open spec fn flag(b: bool) -> Seq<char> {
    if b {
        "1"@
    } else {
        "0"@
    }
}

/// The last five cells of a line.
pub open spec fn timing_cells(timing: Option<TimingDebug>) -> Seq<char> {
    match timing {
        Some(t) => decimal_int(t.advanced_frames as int) + seq![','] + decimal_int(
            t.accumulator_fp as int,
        ) + seq![','] + decimal_int(t.frames_until_next_cost as int) + seq![','] + decimal_int(
            t.match_error_px as int,
        ) + seq![','] + flag(t.boundary_corrected),
        None => ",,,,"@,
    }
}

/// The frame's place in its cycle is known: where, and how long the cycle is.
pub open spec fn phase_of(result: FrameResult) -> Option<(i32, i32)> {
    match result.logical_frame {
        Some(frame) => if result.total_frames_in_cycle > 0 {
            Some((frame, result.total_frames_in_cycle))
        } else {
            None
        },
        None => None,
    }
}

/// A line of the table.
pub open spec fn row_text(
    frame_count: int,
    elapsed_us: int,
    result: FrameResult,
    capture_us: int,
    phase_text: Seq<char>,
) -> Seq<char> {
    decimal(frame_count as nat) + seq![','] + decimal((elapsed_us / 1000) as nat) + seq![','] + cell(
        result.raw_pixel_width,
    ) + seq![','] + cell(result.logical_frame) + seq![','] + decimal_int(
        result.total_frames_in_cycle as int,
    ) + seq![','] + flag(result.cost_is_negative) + seq![','] + decimal_int(
        result.elapsed_frames as int,
    ) + seq![','] + decimal(capture_us as nat) + seq![','] + (if phase_of(result) is Some {
        phase_text
    } else {
        Seq::empty()
    }) + seq![','] + result.battle_state.name@ + seq![','] + timing_cells(result.timing_debug)
        + seq!['\n']
}

fn push_int(s: &mut String, n: i64)
    ensures
        final(s)@ == old(s)@ + decimal_int(n as int),
{
    s.append(&text::decimal_of_int(n));
}

fn push_cell(s: &mut String, value: Option<i32>)
    ensures
        final(s)@ == old(s)@ + cell(value),
{
    if let Some(n) = value {
        push_int(s, n as i64);
    } else {
        assert(s@ + Seq::<char>::empty() =~= s@);
    }
}

fn push_flag(s: &mut String, b: bool)
    ensures
        final(s)@ == old(s)@ + flag(b),
{
    s.append(
        if b {
            "1"
        } else {
            "0"
        },
    );
}

fn push_timing(s: &mut String, timing: &Option<TimingDebug>)
    ensures
        final(s)@ == old(s)@ + timing_cells(*timing),
{
    let ghost start = s@;
    match timing {
        Some(t) => {
            push_int(s, t.advanced_frames as i64);
            s.push(',');
            push_int(s, t.accumulator_fp);
            s.push(',');
            push_int(s, t.frames_until_next_cost as i64);
            s.push(',');
            push_int(s, t.match_error_px as i64);
            s.push(',');
            push_flag(s, t.boundary_corrected);
            assert(s@ =~= start + timing_cells(*timing));
        },
        None => {
            s.append(",,,,");
        },
    }
}

fn format_row(
    frame_count: u64,
    elapsed_us: u128,
    result: &FrameResult,
    capture_us: u128,
    phase_text: &str,
) -> (row: String)
    ensures
        row@ == row_text(
            frame_count as int,
            elapsed_us as int,
            *result,
            capture_us as int,
            phase_text@,
        ),
{
    let mut row = text::decimal_of(frame_count);
    row.push(',');
    text::push_decimal_wide(&mut row, elapsed_us / 1000);
    row.push(',');
    push_cell(&mut row, result.raw_pixel_width);
    row.push(',');
    push_cell(&mut row, result.logical_frame);
    row.push(',');
    push_int(&mut row, result.total_frames_in_cycle as i64);
    row.push(',');
    push_flag(&mut row, result.cost_is_negative);
    row.push(',');
    push_int(&mut row, result.elapsed_frames as i64);
    row.push(',');
    text::push_decimal_wide(&mut row, capture_us);
    row.push(',');
    if row_phase(result).is_some() {
        row.append(phase_text);
    } else {
        assert(row@ =~= row@ + Seq::<char>::empty());
    }
    row.push(',');
    row.append(&result.battle_state.name);
    row.push(',');
    push_timing(&mut row, &result.timing_debug);
    row.push('\n');
    assert(row@ =~= row_text(
        frame_count as int,
        elapsed_us as int,
        *result,
        capture_us as int,
        phase_text@,
    ));
    row
}

/// Where a frame stands in its cycle, and how long that is, where both are known.
pub fn row_phase(result: &FrameResult) -> (phase: Option<(i32, i32)>)
    ensures
        phase == phase_of(*result),
{
    match result.logical_frame {
        Some(frame) => if result.total_frames_in_cycle > 0 {
            Some((frame, result.total_frames_in_cycle))
        } else {
            None
        },
        None => None,
    }
}

/// The arguments that `ffmpeg` is started with.
pub open spec fn video_args(
    format: PixelFormat,
    width: int,
    height: int,
    output: Seq<char>,
) -> Seq<Seq<char>> {
    seq![
        "-y"@,
        "-use_wallclock_as_timestamps"@,
        "1"@,
        "-f"@,
        "rawvideo"@,
        "-pixel_format"@,
        video_format(format),
        "-video_size"@,
        decimal(width as nat) + seq!['x'] + decimal(height as nat),
        "-framerate"@,
        "1000"@,
        "-i"@,
        "pipe:0"@,
        "-an"@,
        "-sn"@,
        "-dn"@,
        "-copyts"@,
        "-start_at_zero"@,
        "-fps_mode"@,
        "passthrough"@,
        "-c:v"@,
        "libx265"@,
        "-crf"@,
        "0"@,
        "-preset"@,
        "ultrafast"@,
        "-pix_fmt"@,
        "yuv444p"@,
        output,
    ]
}

/// The arguments to start `ffmpeg` with: it reads raw frames and writes them without loss. Raw
/// frames carry no time, so their arrival counts, to the millisecond.
pub fn ffmpeg_args(format: PixelFormat, width: u32, height: u32, output: &str) -> (args: Vec<
    String,
>)
    ensures
        views(args@) == video_args(format, width as int, height as int, output@),
{
    let mut size = text::decimal_of(width as u64);
    size.push('x');
    text::push_decimal(&mut size, height as u64);
    let ghost size_text = size@;
    let args = vec![
        "-y".to_owned(),
        "-use_wallclock_as_timestamps".to_owned(),
        "1".to_owned(),
        "-f".to_owned(),
        "rawvideo".to_owned(),
        "-pixel_format".to_owned(),
        pix_fmt_str(format).to_owned(),
        "-video_size".to_owned(),
        size,
        "-framerate".to_owned(),
        "1000".to_owned(),
        "-i".to_owned(),
        "pipe:0".to_owned(),
        "-an".to_owned(),
        "-sn".to_owned(),
        "-dn".to_owned(),
        "-copyts".to_owned(),
        "-start_at_zero".to_owned(),
        "-fps_mode".to_owned(),
        "passthrough".to_owned(),
        "-c:v".to_owned(),
        "libx265".to_owned(),
        "-crf".to_owned(),
        "0".to_owned(),
        "-preset".to_owned(),
        "ultrafast".to_owned(),
        "-pix_fmt".to_owned(),
        "yuv444p".to_owned(),
        output.to_owned(),
    ];
    assert(args@.len() == 29);
    assert(args@[0]@ == "-y"@);
    assert(args@[8]@ == size_text);
    assert(size_text =~= decimal(width as nat) + seq!['x'] + decimal(height as nat));
    assert(views(args@) =~= video_args(format, width as int, height as int, output@));
    args
}

/// What is recorded.
#[derive(Clone, Copy, Debug, PartialEq, Eq, Structural)]
pub struct DebugRecordingPlan {
    pub raw_video: bool,
    pub analysis_csv: bool,
}

/// What is recorded by the settings: nothing unless recording is enabled.
pub open spec fn planned(enabled: bool, record_video: bool, record_csv: bool) -> DebugRecordingPlan {
    DebugRecordingPlan {
        raw_video: enabled && record_video,
        analysis_csv: enabled && record_csv,
    }
}

impl DebugRecordingPlan {
    pub fn from_config(enabled: bool, record_video: bool, record_csv: bool) -> (plan: Self)
        ensures
            plan == planned(enabled, record_video, record_csv),
    {
        DebugRecordingPlan {
            raw_video: enabled && record_video,
            analysis_csv: enabled && record_csv,
        }
    }

    pub fn any(self) -> (b: bool)
        ensures
            b == (self.raw_video || self.analysis_csv),
    {
        self.raw_video || self.analysis_csv
    }
}

/// A recording that runs. A part that fails stops; the other goes on.
#[derive(Debug)]
pub struct DebugRecorder {
    pub video_path: Option<String>,
    pub csv_path: Option<String>,
    pub frame_count: u64,
    pub width: u32,
    pub height: u32,
    pub format: PixelFormat,
}

/// A recording that has just started: what of video and table is recorded, of pictures of this
/// size.
pub open spec fn is_started(
    output_dir: Seq<char>,
    recorded: (bool, bool),
    size: (u32, u32),
    format: PixelFormat,
    recorder: DebugRecorder,
) -> bool {
    &&& text::opt_view(recorder.video_path) == (if recorded.0 {
        Some(joined(output_dir, "capture.mkv"@))
    } else {
        None
    })
    &&& text::opt_view(recorder.csv_path) == (if recorded.1 {
        Some(joined(output_dir, "analysis.csv"@))
    } else {
        None
    })
    &&& recorder.frame_count == 0
    &&& recorder.width == size.0
    &&& recorder.height == size.1
    &&& recorder.format == format
}

impl DebugRecorder {
    /// A recording of what is asked for, into files of the directory.
    pub fn start(
        output_dir: &str,
        record_video: bool,
        record_csv: bool,
        width: u32,
        height: u32,
        format: PixelFormat,
    ) -> (recorder: Self)
        ensures
            is_started(output_dir@, (record_video, record_csv), (width, height), format, recorder),
    {
        DebugRecorder {
            video_path: if record_video {
                Some(paths::join(output_dir, "capture.mkv"))
            } else {
                None
            },
            csv_path: if record_csv {
                Some(paths::join(output_dir, "analysis.csv"))
            } else {
                None
            },
            frame_count: 0,
            width,
            height,
            format,
        }
    }

    /// The line of a frame, where a table is recorded.
    pub open spec fn row_to_write(
        self,
        elapsed_us: u128,
        result: FrameResult,
        capture_us: u128,
        phase_text: Seq<char>,
    ) -> Option<Seq<char>> {
        if self.csv_path is Some {
            Some(
                row_text(
                    self.frame_count as int,
                    elapsed_us as int,
                    result,
                    capture_us as int,
                    phase_text,
                ),
            )
        } else {
            None
        }
    }

    /// What to write of a frame, where video is recorded.
    pub open spec fn is_written_as(self, data: Seq<u8>, bytes: Option<Vec<u8>>) -> bool {
        match bytes {
            Some(bytes) => self.video_path is Some && bytes@ == flipped(
                data,
                self.width * pixel_size(self.format),
                self.height as int,
            ),
            None => self.video_path is None,
        }
    }

    /// The line to write for a frame, where a table is recorded.
    pub fn analysis_row(
        &self,
        elapsed_us: u128,
        result: &FrameResult,
        capture_us: u128,
        phase_text: &str,
    ) -> (row: Option<String>)
        ensures
            text::opt_view(row) == self.row_to_write(elapsed_us, *result, capture_us, phase_text@),
    {
        if self.csv_path.is_some() {
            Some(format_row(self.frame_count, elapsed_us, result, capture_us, phase_text))
        } else {
            None
        }
    }

    /// The recording once a line was written, or could not be.
    pub open spec fn after_row(self, success: bool) -> Self {
        if success {
            DebugRecorder { frame_count: (self.frame_count + 1) as u64, ..self }
        } else {
            DebugRecorder { csv_path: None, ..self }
        }
    }

    /// The line was written, or writing it failed and ends the table.
    pub fn row_written(&mut self, success: bool)
        requires
            success ==> old(self).frame_count < u64::MAX,
        ensures
            *final(self) == old(self).after_row(success),
    {
        if success {
            self.frame_count = self.frame_count + 1;
        } else {
            self.csv_path = None;
        }
    }

    /// A frame of this size can be recorded.
    pub open spec fn fits(self, size: nat) -> bool {
        &&& self.width * pixel_size(self.format) <= u32::MAX
        &&& self.height >= 2 ==> self.height * (self.width * pixel_size(self.format)) <= size
    }

    /// Whether a frame of this size can be recorded.
    pub fn can_record(&self, size: usize) -> (b: bool)
        ensures
            b == self.fits(size as nat),
    {
        let bpp: u32 = bytes_per_pixel(self.format);
        let row: u64 = self.width as u64 * bpp as u64;
        if row > 0xffff_ffff {
            return false;
        }
        assert(self.height * row <= 0xffff_ffff * 0xffff_ffff) by (nonlinear_arith)
            requires
                row <= 0xffff_ffff,
                self.height <= 0xffff_ffff,
        ;
        self.height < 2 || self.height as u64 * row <= size as u64
    }

    /// The bytes to write for a frame, where video is recorded.
    pub fn video_frame(&self, data: &Vec<u8>) -> (bytes: Option<Vec<u8>>)
        requires
            self.video_path is Some ==> self.fits(data@.len()),
        ensures
            self.is_written_as(data@, bytes),
    {
        if self.video_path.is_none() {
            return None;
        }
        let mut bytes: Vec<u8> = Vec::new();
        let mut i: usize = 0;
        while i < data.len()
            invariant
                i <= data@.len(),
                bytes@ == data@.take(i as int),
            decreases data@.len() - i,
        {
            bytes.push(data[i]);
            i += 1;
            assert(data@.take(i as int) =~= data@.take(i as int - 1).push(data@[i as int - 1]));
        }
        assert(data@.take(i as int) =~= data@);
        let bpp: u32 = bytes_per_pixel(self.format);
        flip_rows(&mut bytes, self.width, self.height, bpp);
        Some(bytes)
    }

    /// Writing a frame failed, which ends the video.
    pub fn video_failed(&mut self)
        ensures
            *final(self) == (DebugRecorder { video_path: None, ..*old(self) }),
    {
        self.video_path = None;
    }
}

/// Each pixel keeps its column, and its row counts from the other end.
pub proof fn law_flipping_mirrors_the_rows(
    picture: Seq<u8>,
    row: int,
    height: int,
    r: int,
    c: int,
)
    requires
        0 <= r < height,
        0 <= c < row,
        height * row <= picture.len(),
    ensures
        flipped(picture, row, height).len() == picture.len(),
        flipped(picture, row, height)[r * row + c] == picture[(height - 1 - r) * row + c],
        forall|i: int|
            height * row <= i < picture.len() ==> flipped(picture, row, height)[i] == picture[i],
{
    lemma_place(r, c, row, height);
}

/// Nothing is recorded unless recording is enabled; then each part is recorded where it is asked
/// for, whatever is asked of the other.
pub proof fn law_parts_are_recorded_as_asked(video: bool, csv: bool, other: bool)
    ensures
        !planned(false, video, csv).raw_video,
        !planned(false, video, csv).analysis_csv,
        planned(true, video, other).raw_video == video,
        planned(true, other, csv).analysis_csv == csv,
{
}

/// A recording has a video where one is recorded and a table where one is, in files of the directory
/// that are not the same, and starts with no lines.
pub proof fn law_recordings_start_as_asked(
    output_dir: Seq<char>,
    recorded: (bool, bool),
    size: (u32, u32),
    format: PixelFormat,
    recorder: DebugRecorder,
)
    requires
        is_started(output_dir, recorded, size, format, recorder),
    ensures
        recorder.video_path is Some <==> recorded.0,
        recorder.csv_path is Some <==> recorded.1,
        !paths::is_verbatim(paths::prefix_of(output_dir).0) ==> {
            &&& recorder.video_path matches Some(path) ==> text::ends_with(path@, "capture.mkv"@)
            &&& recorder.csv_path matches Some(path) ==> text::ends_with(path@, "analysis.csv"@)
        },
        recorder.frame_count == 0,
        (recorder.width, recorder.height) == size,
        recorder.format == format,
{
    reveal_strlit("capture.mkv");
    reveal_strlit("analysis.csv");
    paths::lemma_plain_name("capture.mkv"@);
    paths::lemma_plain_name("analysis.csv"@);
    if !paths::is_verbatim(paths::prefix_of(output_dir).0) {
        paths::law_names_are_put_behind(output_dir, "capture.mkv"@);
        paths::law_names_are_put_behind(output_dir, "analysis.csv"@);
    }
}

/// Every line that is written is counted, once; a failure ends the table and nothing else.
pub proof fn law_written_lines_are_counted(recorder: DebugRecorder)
    requires
        recorder.frame_count < u64::MAX,
    ensures
        recorder.after_row(true).frame_count == recorder.frame_count + 1,
        recorder.after_row(true).csv_path == recorder.csv_path,
        recorder.after_row(true).video_path == recorder.video_path,
        recorder.after_row(false).csv_path is None,
        recorder.after_row(false).frame_count == recorder.frame_count,
        recorder.after_row(false).video_path == recorder.video_path,
{
}

/// The formats have names of their own, and those with transparency take four bytes for a pixel, the
/// other three.
pub proof fn law_formats_have_their_sizes(a: PixelFormat, b: PixelFormat)
    ensures
        video_format(a) == video_format(b) <==> a == b,
        pixel_size(a) == 3 <==> a == PixelFormat::Bgr,
        pixel_size(a) == 3 || pixel_size(a) == 4,
        video_format(PixelFormat::Rgba) == "rgba"@,
        video_format(PixelFormat::Bgra) == "bgra"@,
        video_format(PixelFormat::Bgr) == "bgr24"@,
{
    reveal_strlit("rgba");
    reveal_strlit("bgra");
    reveal_strlit("bgr24");
    assert("rgba"@[0] == 'r' && "bgra"@[0] == 'b' && "bgra"@.len() == 4 && "bgr24"@.len() == 5);
}

/// An option stands among the arguments with that value behind it.
pub open spec fn has_option(args: Seq<Seq<char>>, name: Seq<char>, value: Seq<char>) -> bool {
    exists|i: int| 0 <= i < args.len() - 1 && #[trigger] args[i] == name && args[i + 1] == value
}

/// The video has the format and the size of the frames, is read from the pipe, is written without
/// loss, and goes to the file that comes last.
pub proof fn law_video_has_the_form_of_its_frames(
    format: PixelFormat,
    width: int,
    height: int,
    output: Seq<char>,
)
    ensures
        ({
            let args = video_args(format, width, height, output);
            &&& has_option(args, "-f"@, "rawvideo"@)
            &&& has_option(args, "-pixel_format"@, video_format(format))
            &&& has_option(
                args,
                "-video_size"@,
                decimal(width as nat) + seq!['x'] + decimal(height as nat),
            )
            &&& has_option(args, "-i"@, "pipe:0"@)
            &&& has_option(args, "-crf"@, "0"@)
            &&& has_option(args, "-use_wallclock_as_timestamps"@, "1"@)
            &&& has_option(args, "-fps_mode"@, "passthrough"@)
            &&& args.last() == output
        }),
{
    let args = video_args(format, width, height, output);
    assert(args[1] == "-use_wallclock_as_timestamps"@ && args[2] == "1"@);
    assert(args[3] == "-f"@ && args[4] == "rawvideo"@);
    assert(args[5] == "-pixel_format"@ && args[6] == video_format(format));
    assert(args[7] == "-video_size"@ && args[8] == decimal(width as nat) + seq!['x'] + decimal(
        height as nat,
    ));
    assert(args[11] == "-i"@ && args[12] == "pipe:0"@);
    assert(args[18] == "-fps_mode"@ && args[19] == "passthrough"@);
    assert(args[22] == "-crf"@ && args[23] == "0"@);
}

/// What the table tells of a frame, from the left to the right.
pub open spec fn cells_of(
    frame_count: int,
    elapsed_us: int,
    result: FrameResult,
    capture_us: int,
    phase_text: Seq<char>,
) -> Seq<Seq<char>> {
    let timing = result.timing_debug;
    seq![
        decimal(frame_count as nat),
        decimal((elapsed_us / 1000) as nat),
        cell(result.raw_pixel_width),
        cell(result.logical_frame),
        decimal_int(result.total_frames_in_cycle as int),
        flag(result.cost_is_negative),
        decimal_int(result.elapsed_frames as int),
        decimal(capture_us as nat),
        if result.logical_frame is Some && result.total_frames_in_cycle > 0 {
            phase_text
        } else {
            Seq::empty()
        },
        result.battle_state.name@,
        if timing is Some { decimal_int(timing->0.advanced_frames as int) } else { Seq::empty() },
        if timing is Some { decimal_int(timing->0.accumulator_fp as int) } else { Seq::empty() },
        if timing is Some {
            decimal_int(timing->0.frames_until_next_cost as int)
        } else {
            Seq::empty()
        },
        if timing is Some { decimal_int(timing->0.match_error_px as int) } else { Seq::empty() },
        if timing is Some { flag(timing->0.boundary_corrected) } else { Seq::empty() },
    ]
}

/// The names of the columns, from the left to the right.
pub open spec fn column_names() -> Seq<Seq<char>> {
    seq![
        "frame_index"@,
        "timestamp_ms"@,
        "raw_pixel_width"@,
        "logical_frame"@,
        "total_frames_in_cycle"@,
        "cost_is_negative"@,
        "elapsed_frames"@,
        "capture_duration_us"@,
        "phase"@,
        "battle_state"@,
        "advanced_frames"@,
        "accumulator_fp"@,
        "frames_until_next_cost"@,
        "match_error_px"@,
        "boundary_corrected"@,
    ]
}

proof fn lemma_joined_fifteen(parts: Seq<Seq<char>>)
    requires
        parts.len() == 15,
    ensures
        text::joined_with(parts, ',') == parts[0] + seq![','] + parts[1] + seq![','] + parts[2]
            + seq![','] + parts[3] + seq![','] + parts[4] + seq![','] + parts[5] + seq![',']
            + parts[6] + seq![','] + parts[7] + seq![','] + parts[8] + seq![','] + parts[9] + seq![
            ',',
        ] + parts[10] + seq![','] + parts[11] + seq![','] + parts[12] + seq![','] + parts[13]
            + seq![','] + parts[14],
{
    lemma_joined_steps(parts, 15);
    let taken = |n: int| text::joined_with(parts.take(n), ',');
    assert(parts.take(15) =~= parts);
    assert(taken(1) =~= parts[0]);
    lemma_joined_steps(parts, 2);
    lemma_joined_steps(parts, 3);
    lemma_joined_steps(parts, 4);
    lemma_joined_steps(parts, 5);
    lemma_joined_steps(parts, 6);
    lemma_joined_steps(parts, 7);
    lemma_joined_steps(parts, 8);
    lemma_joined_steps(parts, 9);
    lemma_joined_steps(parts, 10);
    lemma_joined_steps(parts, 11);
    lemma_joined_steps(parts, 12);
    lemma_joined_steps(parts, 13);
    lemma_joined_steps(parts, 14);
}

proof fn lemma_joined_steps(parts: Seq<Seq<char>>, n: int)
    requires
        2 <= n <= parts.len(),
    ensures
        text::joined_with(parts.take(n), ',') == text::joined_with(parts.take(n - 1), ',') + seq![
            ',',
        ] + parts[n - 1],
{
    assert(parts.take(n).drop_last() =~= parts.take(n - 1));
    assert(parts.take(n).last() == parts[n - 1]);
    let front = text::joined_with(parts.take(n - 1), ',');
    assert(front.push(',') =~= front + seq![',']);
}

proof fn lemma_put_behind(x: Seq<char>, y: Seq<char>, z: Seq<char>)
    ensures
        x + (y + z) == x + y + z,
{
    assert(x + (y + z) =~= x + y + z);
}

/// A line of the table has a cell for each column, in the order of the columns, with commas between
/// them; a cell is empty exactly where nothing is known.
pub proof fn law_lines_have_a_cell_for_each_column(
    frame_count: int,
    elapsed_us: int,
    result: FrameResult,
    capture_us: int,
    phase_text: Seq<char>,
)
    ensures
        row_text(frame_count, elapsed_us, result, capture_us, phase_text) == text::joined_with(
            cells_of(frame_count, elapsed_us, result, capture_us, phase_text),
            ',',
        ).push('\n'),
        cells_of(frame_count, elapsed_us, result, capture_us, phase_text).len()
            == column_names().len(),
{
    let cells = cells_of(frame_count, elapsed_us, result, capture_us, phase_text);
    lemma_joined_fifteen(cells);
    reveal_strlit(",,,,");
    let comma = seq![','];
    let t1 = cells[10] + comma;
    let t2 = t1 + cells[11];
    let t3 = t2 + comma;
    let t4 = t3 + cells[12];
    let t5 = t4 + comma;
    let t6 = t5 + cells[13];
    let t7 = t6 + comma;
    let t8 = t7 + cells[14];
    assert(timing_cells(result.timing_debug) == t8) by {
        if result.timing_debug is None {
            assert(timing_cells(result.timing_debug) =~= t8);
        }
    }
    let front = cells[0] + comma + cells[1] + comma + cells[2] + comma + cells[3] + comma + cells[4]
        + comma + cells[5] + comma + cells[6] + comma + cells[7] + comma + cells[8] + comma
        + cells[9] + comma;
    lemma_put_behind(front, cells[10], comma);
    lemma_put_behind(front, t1, cells[11]);
    lemma_put_behind(front, t2, comma);
    lemma_put_behind(front, t3, cells[12]);
    lemma_put_behind(front, t4, comma);
    lemma_put_behind(front, t5, cells[13]);
    lemma_put_behind(front, t6, comma);
    lemma_put_behind(front, t7, cells[14]);
    let joint = text::joined_with(cells, ',');
    assert(joint == front + t8);
    assert(row_text(frame_count, elapsed_us, result, capture_us, phase_text) == joint + seq!['\n']);
    assert(joint + seq!['\n'] =~= joint.push('\n'));
}

/// The first line of the table names the columns, in their order.
#[verifier::rlimit(100)]
pub proof fn law_header_names_the_columns()
    ensures
        CSV_HEADER@ == text::joined_with(column_names(), ',').push('\n'),
{
    lemma_joined_fifteen(column_names());
    reveal_strlit(
        "frame_index,timestamp_ms,raw_pixel_width,logical_frame,total_frames_in_cycle,cost_is_negative,elapsed_frames,capture_duration_us,phase,battle_state,advanced_frames,accumulator_fp,frames_until_next_cost,match_error_px,boundary_corrected\n",
    );
    reveal_strlit("frame_index");
    reveal_strlit("timestamp_ms");
    reveal_strlit("raw_pixel_width");
    reveal_strlit("logical_frame");
    reveal_strlit("total_frames_in_cycle");
    reveal_strlit("cost_is_negative");
    reveal_strlit("elapsed_frames");
    reveal_strlit("capture_duration_us");
    reveal_strlit("phase");
    reveal_strlit("battle_state");
    reveal_strlit("advanced_frames");
    reveal_strlit("accumulator_fp");
    reveal_strlit("frames_until_next_cost");
    reveal_strlit("match_error_px");
    reveal_strlit("boundary_corrected");
    assert(CSV_HEADER@ =~= text::joined_with(column_names(), ',').push('\n'));
}

/// A line begins with how many were written before it, and the milliseconds since the start; there
/// is one for a frame exactly while a table is recorded, and a frame of video exactly while video is.
pub proof fn law_parts_are_written_while_they_are_recorded(
    recorder: DebugRecorder,
    elapsed_us: u128,
    result: FrameResult,
    capture_us: u128,
    phase_text: Seq<char>,
    data: Seq<u8>,
    bytes: Option<Vec<u8>>,
)
    requires
        recorder.is_written_as(data, bytes),
    ensures
        ({
            let row = recorder.row_to_write(elapsed_us, result, capture_us, phase_text);
            &&& row is Some <==> recorder.csv_path is Some
            &&& recorder.after_row(false).row_to_write(elapsed_us, result, capture_us, phase_text)
                is None
            &&& row matches Some(row) ==> text::starts_with(
                row,
                decimal(recorder.frame_count as nat) + seq![','] + decimal(
                    (elapsed_us / 1000) as nat,
                ) + seq![','],
            )
        }),
        bytes is Some <==> recorder.video_path is Some,
        bytes matches Some(bytes) ==> bytes@.len() == data.len(),
{
    if let Some(row) = recorder.row_to_write(elapsed_us, result, capture_us, phase_text) {
        let front = decimal(recorder.frame_count as nat) + seq![','] + decimal(
            (elapsed_us / 1000) as nat,
        ) + seq![','];
        assert(row.take(front.len() as int) =~= front);
    }
}

} // verus!

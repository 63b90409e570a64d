use crate::paths::{join, parent, spec_join, spec_parent};
use crate::text::{chars_of, copy_range, find, is_whitespace, occurs_at, same_chars, spec_contains, spec_is_whitespace, string_of};
use vstd::prelude::*;

verus! {

/// Name of the transcoder binary.
pub const TRANSCODER: &'static str = "ffmpeg";

/// What precedes a timestamp in the diagnostic output of the scene pass.
pub const TIME_MARKER: &'static str = "pts_time:";

/// Which frames of a video are decoded.
pub enum FramePlan {
    /// The scenes at these positions of the list of detected scenes.
    Scenes(Vec<usize>),
    /// No scene was detected: one frame from the middle of the video.
    Middle,
}

/// Why no frames can be planned.
#[derive(Clone, Copy, Debug, PartialEq, Eq, Structural)]
pub enum PlanError {
    /// Fewer than one frame was asked for.
    NoFramesAllowed,
}

/// The position of the scene that is sampled as number `i` of `count` out
/// of `len` scenes.
pub open spec fn spec_sample(len: int, count: int, i: int) -> int {
    if len <= count {
        i
    } else {
        (i * len) / count
    }
}

/// Sampled scenes are different scenes, in the order of the video: a later
/// sample lies at a later position.
pub proof fn lemma_samples_ascend(len: int, count: int, i: int, j: int)
    requires
        0 < count,
        0 <= i < j,
        len <= count || j < count,
    ensures
        spec_sample(len, count, i) < spec_sample(len, count, j),
{
    if len > count {
        assert((i * len) / count < (j * len) / count) by (nonlinear_arith)
            requires
                0 < count < len,
                0 <= i < j,
        ;
    }
}

/// Picks `count` of `len` scenes, evenly spread, or all of them where there
/// are no more than `count`.
pub fn sample_indices(len: usize, count: usize) -> (picked: Vec<usize>)
    ensures
        picked.len() == if len <= count {
            len
        } else {
            count
        },
        forall|i: int|
            0 <= i < picked.len() ==> #[trigger] picked[i] == spec_sample(
                len as int,
                count as int,
                i,
            ),
        forall|i: int| 0 <= i < picked.len() ==> (#[trigger] picked[i]) < len,
{
    let take = if len <= count {
        len
    } else {
        count
    };
    let mut picked: Vec<usize> = Vec::new();
    let mut i: usize = 0;
    while i < take
        invariant
            i <= take,
            take == if len <= count {
                len
            } else {
                count
            },
            picked.len() == i,
            forall|j: int|
                0 <= j < i ==> #[trigger] picked[j] == spec_sample(len as int, count as int, j),
            forall|j: int| 0 <= j < i ==> (#[trigger] picked[j]) < len,
        decreases take - i,
    {
        if len <= count {
            picked.push(i);
        } else {
            assert(0 <= i * len <= 0xffff_ffff_ffff_ffff * 0xffff_ffff_ffff_ffff) by (nonlinear_arith)
                requires
                    0 <= i <= 0xffff_ffff_ffff_ffff,
                    0 <= len <= 0xffff_ffff_ffff_ffff,
            ;
            let wide: u128 = (i as u128) * (len as u128);
            assert((i * len) / (count as int) < len) by (nonlinear_arith)
                requires
                    0 <= i < count,
                    0 < len,
            ;
            assert(0 <= (i * len) / (count as int)) by (nonlinear_arith)
                requires
                    0 <= i,
                    0 < count,
                    0 < len,
            ;
            let at = (wide / (count as u128)) as usize;
            picked.push(at);
        }
        i += 1;
    }
    picked
}

/// Plans the frames of a video from the number of scenes that were detected
/// and the number of frames that may be kept.
pub fn plan_frames(scenes: usize, max_frames: usize) -> (plan: Result<FramePlan, PlanError>)
    ensures
        max_frames == 0 <==> plan == Err::<FramePlan, PlanError>(PlanError::NoFramesAllowed),
        max_frames > 0 && scenes == 0 ==> plan == Ok::<FramePlan, PlanError>(FramePlan::Middle),
        max_frames > 0 && scenes > 0 ==> (plan matches Ok(FramePlan::Scenes(picked)) && {
            &&& picked.len() == if scenes <= max_frames {
                scenes
            } else {
                max_frames
            }
            &&& forall|i: int|
                0 <= i < picked.len() ==> #[trigger] picked[i] == spec_sample(
                    scenes as int,
                    max_frames as int,
                    i,
                )
        }),
{
    if max_frames == 0 {
        Err(PlanError::NoFramesAllowed)
    } else if scenes == 0 {
        Ok(FramePlan::Middle)
    } else {
        Ok(FramePlan::Scenes(sample_indices(scenes, max_frames)))
    }
}

/// Where the first white space of `line` at or behind `from` stands; the
/// length of `line` where there is none.
pub open spec fn spec_token_end(line: Seq<char>, from: int) -> int
    decreases line.len() - from,
{
    if from >= line.len() {
        line.len() as int
    } else if spec_is_whitespace(line[from]) {
        from
    } else {
        spec_token_end(line, from + 1)
    }
}

/// Where the marker first stands in `line`.
pub open spec fn spec_marker_at(line: Seq<char>, at: int) -> bool {
    &&& occurs_at(line, TIME_MARKER@, at)
    &&& forall|k: int| 0 <= k < at ==> !occurs_at(line, TIME_MARKER@, k)
}

/// The text of the timestamp that a line of diagnostic output reports: what
/// stands between the first marker and the first white space behind it. A
/// line without a marker, or without white space behind it, reports none.
pub open spec fn spec_scene_time(line: Seq<char>, token: Option<Seq<char>>) -> bool {
    match token {
        Some(t) => exists|at: int|
            {
                &&& #[trigger] spec_marker_at(line, at)
                &&& spec_token_end(line, at + TIME_MARKER@.len()) < line.len()
                &&& t == line.subrange(
                    at + TIME_MARKER@.len(),
                    spec_token_end(line, at + TIME_MARKER@.len()),
                )
            },
        None => !spec_contains(line, TIME_MARKER@) || exists|at: int|
            #[trigger] spec_marker_at(line, at) && spec_token_end(line, at + TIME_MARKER@.len())
                >= line.len(),
    }
}

fn token_end(line: &[char], from: usize) -> (end: usize)
    requires
        from <= line.len(),
    ensures
        end == spec_token_end(line@, from as int),
        from <= end <= line.len(),
{
    let mut end: usize = from;
    while end < line.len() && !is_whitespace(line[end])
        invariant
            from <= end <= line.len(),
            spec_token_end(line@, from as int) == spec_token_end(line@, end as int),
        decreases line.len() - end,
    {
        end += 1;
    }
    end
}

/// Reads the text of the timestamp that a line of the scene pass reports.
pub fn scene_time_token(line: &str) -> (token: Option<String>)
    ensures
        spec_scene_time(
            line@,
            match token {
                Some(t) => Some(t@),
                None => None,
            },
        ),
{
    let chars = chars_of(line);
    let marker = chars_of(TIME_MARKER);
    match find(chars.as_slice(), marker.as_slice()) {
        Some(at) => {
            assert(at + marker.len() <= chars.len());
            let from = at + marker.len();
            let end = token_end(chars.as_slice(), from);
            if end < chars.len() {
                let text = copy_range(chars.as_slice(), from, end);
                assert(spec_marker_at(line@, at as int));
                Some(string_of(text.as_slice()))
            } else {
                assert(spec_marker_at(line@, at as int));
                None
            }
        },
        None => None,
    }
}

/// Number of bytes of one raw frame of three bytes a pixel.
pub open spec fn spec_frame_len(width: u32, height: u32) -> int {
    width * height * 3
}

/// Number of bytes of one raw frame, where that number can be held.
pub fn frame_len(width: u32, height: u32) -> (len: Option<usize>)
    ensures
        match len {
            Some(n) => n == spec_frame_len(width, height),
            None => spec_frame_len(width, height) > usize::MAX,
        },
{
    assert(0 <= width * height <= 0xffff_ffff * 0xffff_ffff) by (nonlinear_arith)
        requires
            0 <= width <= 0xffff_ffff,
            0 <= height <= 0xffff_ffff,
    ;
    let wide: u128 = (width as u128) * (height as u128) * 3;
    if wide <= usize::MAX as u128 {
        Some(wide as usize)
    } else {
        None
    }
}

/// Tells whether what the transcoder wrote holds a whole frame, and how many
/// of its bytes make up the frame.
pub fn whole_frame(received: usize, width: u32, height: u32) -> (len: Option<usize>)
    ensures
        match len {
            Some(n) => n == spec_frame_len(width, height) && n <= received,
            None => spec_frame_len(width, height) > received,
        },
{
    match frame_len(width, height) {
        Some(n) => if n <= received {
            Some(n)
        } else {
            None
        },
        None => None,
    }
}

/// The decimal digits of a number.
pub open spec fn spec_decimal(n: nat) -> Seq<char>
    decreases n,
{
    if n < 10 {
        seq![(('0' as u8) + n) as char]
    } else {
        spec_decimal(n / 10).push((('0' as u8) + n % 10) as char)
    }
}

/// The decimal digits of a number, with a leading zero where there is one
/// digit only.
pub open spec fn spec_two_digits(n: nat) -> Seq<char> {
    if n < 10 {
        seq!['0'] + spec_decimal(n)
    } else {
        spec_decimal(n)
    }
}

/// A number of seconds as minutes and seconds with a colon between them,
/// each of two digits at least.
pub open spec fn spec_format_timestamp(seconds: u64) -> Seq<char> {
    spec_two_digits((seconds / 60) as nat).push(':') + spec_two_digits((seconds % 60) as nat)
}

fn push_decimal(n: u64, out: &mut String)
    ensures
        final(out)@ == old(out)@ + spec_decimal(n as nat),
    decreases n,
{
    if n < 10 {
        out.push((48u8 + (n as u8)) as char);
        assert(out@ =~= old(out)@ + spec_decimal(n as nat));
    } else {
        push_decimal(n / 10, out);
        out.push((48u8 + ((n % 10) as u8)) as char);
        assert(out@ =~= old(out)@ + spec_decimal(n as nat));
    }
}

fn push_two_digits(n: u64, out: &mut String)
    ensures
        final(out)@ == old(out)@ + spec_two_digits(n as nat),
{
    if n < 10 {
        out.push('0');
    }
    push_decimal(n, out);
    assert(out@ =~= old(out)@ + spec_two_digits(n as nat));
}

/// Renders a whole number of seconds as `MM:SS`.
pub fn format_timestamp(seconds: u64) -> (text: String)
    ensures
        text@ == spec_format_timestamp(seconds),
{
    let mut text = String::new();
    push_two_digits(seconds / 60, &mut text);
    text.push(':');
    push_two_digits(seconds % 60, &mut text);
    assert(text@ =~= spec_format_timestamp(seconds));
    text
}

/// The name of `tool` with the extension of executables on Windows.
pub open spec fn spec_exe_name(tool: Seq<char>) -> Seq<char> {
    tool + ".exe"@
}

/// Which binary is run for `tool`. Without a custom transcoder, the tool by
/// its name. With one, the custom path for the transcoder itself; for
/// another tool the file of its name beside the custom transcoder, where
/// there is one, with or without the extension of executables, and else the
/// tool by its name.
pub open spec fn spec_tool_binary(
    custom: Option<Seq<char>>,
    tool: Seq<char>,
    beside: bool,
    beside_exe: bool,
) -> Seq<char> {
    match custom {
        None => tool,
        Some(path) => if tool == TRANSCODER@ {
            path
        } else {
            match spec_parent(path) {
                None => tool,
                Some(dir) => if beside {
                    spec_join(dir, tool)
                } else if beside_exe {
                    spec_join(dir, spec_exe_name(tool))
                } else {
                    tool
                },
            }
        },
    }
}

/// The two files beside a custom transcoder that may be the binary of
/// `tool`: the one of its name, and the one with the extension of
/// executables. `None` where the custom path is empty or the root.
pub fn tool_candidates(custom: &str, tool: &str) -> (found: Option<(String, String)>)
    ensures
        match found {
            Some((plain, exe)) => spec_parent(custom@) matches Some(dir) && plain@ == spec_join(
                dir,
                tool@,
            ) && exe@ == spec_join(dir, spec_exe_name(tool@)),
            None => spec_parent(custom@) is None,
        },
{
    match parent(custom) {
        Some(dir) => {
            let plain = join(dir.as_str(), tool);
            let mut name = String::from_str(tool);
            name.append(".exe");
            let exe = join(dir.as_str(), name.as_str());
            Some((plain, exe))
        },
        None => None,
    }
}

/// Which binary is run for `tool`. `beside` and `beside_exe` say whether
/// the two files of `tool_candidates` exist.
pub fn get_ffmpeg_tool_binary(
    custom: Option<&str>,
    tool: &str,
    beside: bool,
    beside_exe: bool,
) -> (binary: String)
    ensures
        binary@ == spec_tool_binary(
            match custom {
                Some(c) => Some(c@),
                None => None,
            },
            tool@,
            beside,
            beside_exe,
        ),
{
    match custom {
        None => String::from_str(tool),
        Some(path) => {
            let t = chars_of(tool);
            let name = chars_of(TRANSCODER);
            if same_chars(t.as_slice(), name.as_slice()) {
                String::from_str(path)
            } else {
                match tool_candidates(path, tool) {
                    Some((plain, exe)) => {
                        if beside {
                            plain
                        } else if beside_exe {
                            exe
                        } else {
                            String::from_str(tool)
                        }
                    },
                    None => String::from_str(tool),
                }
            }
        },
    }
}

} // verus!

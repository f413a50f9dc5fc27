//! The payload nodes (cropper, trimmer) and the dictionary applet: what they
//! do with the files sent to them and what they report.

use vstd::prelude::*;
use crate::api::{PayloadData, PayloadMessage};
use crate::engine::RayExtension;
use crate::text::{concat2, push_str, push_string, views};

verus! {

/// The text `{:?}` writes for a path (quoted, with special characters escaped).
pub uninterp spec fn path_debug(path: Seq<char>) -> Seq<char>;

/// `format!("{:?}", Path::new(path))`: the quoted, escaped form of a path.
/// Its result is named by `path_debug`; no more is stated of it.
#[verifier::external_body]
pub(crate) fn debug_path(path: &str) -> (r: String)
    ensures
        r@ == path_debug(path@),
{
    format!("{:?}", std::path::Path::new(path))
}

/// The path of the file a payload carries, when it is addressed to `node`
/// and carries a file.
pub open spec fn file_for(msg: PayloadMessage, node: Seq<char>) -> Option<Seq<char>> {
    if msg.target@ == node {
        match msg.data {
            PayloadData::File(p) => Some(p@),
            _ => None,
        }
    } else {
        None
    }
}

/// The path of the file a payload carries, when it is addressed to `node`
/// and carries a file.
pub fn payload_file(msg: &PayloadMessage, node: &str) -> (r: Option<String>)
    ensures
        match file_for(*msg, node@) {
            Some(p) => r matches Some(s) && s@ == p,
            None => r is None,
        },
{
    if msg.target == node.to_owned() {
        match &msg.data {
            PayloadData::File(p) => Some(p.clone()),
            _ => None,
        }
    } else {
        None
    }
}

/// The ffmpeg arguments that crop `input` to `w` by `h` into `output`.
pub open spec fn crop_args(input: Seq<char>, w: Seq<char>, h: Seq<char>, output: Seq<char>) -> Seq<Seq<char>> {
    seq!["-y"@, "-i"@, input, "-vf"@, "crop="@ + w + ":"@ + h, output]
}

/// The crop arguments overwrite, read `input`, write `output` last, and
/// filter with `crop=`, then the width, then `:`, then the height: the width
/// always comes first.
pub proof fn law_crop_width_then_height(input: Seq<char>, w: Seq<char>, h: Seq<char>, output: Seq<char>)
    ensures
        ({
            let a = crop_args(input, w, h, output);
            let f = a[4];
            let n = w.len() as int;
            &&& a.len() == 6
            &&& a[0] == seq!['-', 'y']
            &&& a[1] == seq!['-', 'i']
            &&& a[2] == input
            &&& a[3] == seq!['-', 'v', 'f']
            &&& a[5] == output
            &&& f.len() == 6 + w.len() + h.len()
            &&& f.subrange(0, 5) == seq!['c', 'r', 'o', 'p', '=']
            &&& f.subrange(5, 5 + n) == w
            &&& f[5 + n] == ':'
            &&& f.subrange(6 + n, f.len() as int) == h
        }),
{
    reveal_strlit("-y");
    reveal_strlit("-i");
    reveal_strlit("-vf");
    reveal_strlit("crop=");
    reveal_strlit(":");
    let f = crop_args(input, w, h, output)[4];
    assert(f == "crop="@ + w + ":"@ + h);
    assert(f.subrange(0, 5) =~= seq!['c', 'r', 'o', 'p', '=']);
    let n = w.len() as int;
    assert(f.subrange(5, 5 + n) =~= w);
    assert(f.subrange(6 + n, f.len() as int) =~= h);
    assert("-y"@ =~= seq!['-', 'y']);
    assert("-i"@ =~= seq!['-', 'i']);
    assert("-vf"@ =~= seq!['-', 'v', 'f']);
}

/// The ffmpeg arguments that copy `dur` of `input` from `start` into `output`.
pub open spec fn trim_args(input: Seq<char>, start: Seq<char>, dur: Seq<char>, output: Seq<char>) -> Seq<
    Seq<char>,
> {
    seq!["-y"@, "-i"@, input, "-ss"@, start, "-t"@, dur, "-c"@, "copy"@, output]
}

/// The trim arguments seek to the start with `-ss` and keep the duration
/// with `-t`, in that order, copy the streams, and write `output` last.
pub proof fn law_trim_start_then_duration(input: Seq<char>, start: Seq<char>, dur: Seq<char>, output: Seq<char>)
    ensures
        ({
            let a = trim_args(input, start, dur, output);
            &&& a.len() == 10
            &&& a[1] == seq!['-', 'i'] && a[2] == input
            &&& a[3] == seq!['-', 's', 's'] && a[4] == start
            &&& a[5] == seq!['-', 't'] && a[6] == dur
            &&& a[7] == seq!['-', 'c'] && a[8] == seq!['c', 'o', 'p', 'y']
            &&& a[9] == output
        }),
{
    reveal_strlit("-i");
    reveal_strlit("-ss");
    reveal_strlit("-t");
    reveal_strlit("-c");
    reveal_strlit("copy");
    assert("-i"@ =~= seq!['-', 'i']);
    assert("-ss"@ =~= seq!['-', 's', 's']);
    assert("-t"@ =~= seq!['-', 't']);
    assert("-c"@ =~= seq!['-', 'c']);
    assert("copy"@ =~= seq!['c', 'o', 'p', 'y']);
}

/// A node that crops the video or image files sent to it and forwards the result.
pub struct CropperApplet {
    pub target_width: String,
    pub target_height: String,
    pub is_processing: bool,
    pub status: String,
    /// The node the cropped file is sent to.
    pub target_node: String,
}

impl CropperApplet {
    /// An idle cropper cutting to 1048 by 1048 and forwarding to the trimmer.
    pub fn new() -> (c: Self)
        ensures
            c.target_width@ == "1048"@,
            c.target_height@ == "1048"@,
            !c.is_processing,
            c.status@ == "Idle"@,
            c.target_node@ == "Trimmer"@,
    {
        CropperApplet {
            target_width: "1048".to_owned(),
            target_height: "1048".to_owned(),
            is_processing: false,
            status: "Idle".to_owned(),
            target_node: "Trimmer".to_owned(),
        }
    }

    /// Starts cropping `input` into `output`: the node is busy and says so;
    /// returns the ffmpeg arguments.
    pub fn begin_crop(&mut self, input: &str, output: &str) -> (r: Vec<String>)
        ensures
            views(r@) == crop_args(input@, old(self).target_width@, old(self).target_height@, output@),
            final(self).is_processing,
            final(self).status@ == "Cropping "@ + path_debug(input@),
            final(self).target_width == old(self).target_width,
            final(self).target_height == old(self).target_height,
            final(self).target_node == old(self).target_node,
    {
        self.is_processing = true;
        let shown = debug_path(input);
        self.status = concat2("Cropping ", shown.as_str());
        let mut r: Vec<String> = Vec::new();
        push_str(&mut r, "-y");
        push_str(&mut r, "-i");
        push_str(&mut r, input);
        push_str(&mut r, "-vf");
        let mut filter = concat2("crop=", self.target_width.as_str());
        filter.append(":");
        filter.append(self.target_height.as_str());
        push_string(&mut r, filter);
        push_str(&mut r, output);
        assert(views(r@) =~= crop_args(input@, self.target_width@, self.target_height@, output@));
        r
    }

    /// The crop finished: on success the cropped file `output` is sent to
    /// the target node; otherwise the node reports the failure.
    pub fn finish_crop(&mut self, success: bool, output: String) -> (r: Option<PayloadMessage>)
        ensures
            !final(self).is_processing,
            success ==> final(self).status@ == "Complete"@ && (r matches Some(m) && m.source@
                == "Cropper"@ && m.target@ == old(self).target_node@ && (m.data matches PayloadData::File(p)
                && p@ == output@)),
            !success ==> final(self).status@ == "Failed"@ && r is None,
            final(self).target_node == old(self).target_node,
    {
        self.is_processing = false;
        if success {
            self.status = "Complete".to_owned();
            Some(
                PayloadMessage {
                    source: "Cropper".to_owned(),
                    target: self.target_node.clone(),
                    data: PayloadData::File(output),
                },
            )
        } else {
            self.status = "Failed".to_owned();
            None
        }
    }
}

impl RayExtension for CropperApplet {
    fn name(&self) -> (n: &str)
        ensures
            n@ == "Cropper Node"@,
    {
        "Cropper Node"
    }
}

/// A node that trims the video files sent to it and saves the result.
pub struct TrimmerApplet {
    pub start_time: String,
    pub duration: String,
    pub status: String,
}

impl TrimmerApplet {
    /// An idle trimmer keeping 15 seconds from the start.
    pub fn new() -> (t: Self)
        ensures
            t.start_time@ == "00:00:00"@,
            t.duration@ == "15"@,
            t.status@ == "Idle"@,
    {
        TrimmerApplet { start_time: "00:00:00".to_owned(), duration: "15".to_owned(), status: "Idle".to_owned() }
    }

    /// The name of the trimmed file made from a file called `name`.
    pub fn output_name(name: &str) -> (r: String)
        ensures
            r@ == "final_"@ + name@,
    {
        concat2("final_", name)
    }

    /// Starts trimming `input` into `output`: the node says so; returns the
    /// ffmpeg arguments.
    pub fn begin_trim(&mut self, input: &str, output: &str) -> (r: Vec<String>)
        ensures
            views(r@) == trim_args(input@, old(self).start_time@, old(self).duration@, output@),
            final(self).status@ == "Trimming "@ + path_debug(input@),
            final(self).start_time == old(self).start_time,
            final(self).duration == old(self).duration,
    {
        let shown = debug_path(input);
        self.status = concat2("Trimming ", shown.as_str());
        let mut r: Vec<String> = Vec::new();
        push_str(&mut r, "-y");
        push_str(&mut r, "-i");
        push_str(&mut r, input);
        push_str(&mut r, "-ss");
        push_str(&mut r, self.start_time.as_str());
        push_str(&mut r, "-t");
        push_str(&mut r, self.duration.as_str());
        push_str(&mut r, "-c");
        push_str(&mut r, "copy");
        push_str(&mut r, output);
        assert(views(r@) =~= trim_args(input@, self.start_time@, self.duration@, output@));
        r
    }

    /// The trim finished: on success the node reports that the file went to
    /// the desktop and broadcasts the final file `output` to every node;
    /// otherwise it reports the failure.
    pub fn finish_trim(&mut self, success: bool, output: String) -> (r: Option<PayloadMessage>)
        ensures
            success ==> final(self).status@ == "Saved to Desktop"@ && (r matches Some(m) && m.source@
                == "Trimmer"@ && m.target@ == "*"@ && (m.data matches PayloadData::File(p) && p@
                == output@)),
            !success ==> final(self).status@ == "Failed"@ && r is None,
            final(self).start_time == old(self).start_time,
            final(self).duration == old(self).duration,
    {
        if success {
            self.status = "Saved to Desktop".to_owned();
            Some(
                PayloadMessage {
                    source: "Trimmer".to_owned(),
                    target: "*".to_owned(),
                    data: PayloadData::File(output),
                },
            )
        } else {
            self.status = "Failed".to_owned();
            None
        }
    }
}

impl RayExtension for TrimmerApplet {
    fn name(&self) -> (n: &str)
        ensures
            n@ == "Trimmer Node"@,
    {
        "Trimmer Node"
    }
}

/// The dictionary applet.
pub struct YomichanApplet {
    pub query: String,
}

impl YomichanApplet {
    /// The applet with an empty query.
    pub fn new() -> (y: Self)
        ensures
            y.query@ == Seq::<char>::empty(),
    {
        YomichanApplet { query: String::new() }
    }
}

impl RayExtension for YomichanApplet {
    fn name(&self) -> (n: &str)
        ensures
            n@ == "Yomichan"@,
    {
        "Yomichan"
    }
}

/// A node accepts a payload exactly when it is addressed to the node and
/// carries a file, and then works on that file; so the file a node sends to
/// `node` (as the cropper does on success) is the one `node` works on.
pub proof fn law_payload_routing(msg: PayloadMessage, node: Seq<char>, other: Seq<char>)
    ensures
        file_for(msg, node) is Some <==> (msg.target@ == node && msg.data is File),
        msg.target@ == node ==> (msg.data matches PayloadData::File(p) ==> file_for(msg, node)
            == Some(p@)),
        other != msg.target@ ==> file_for(msg, other) is None,
{
}

} // verus!

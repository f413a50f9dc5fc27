//! The shader tab of the dictionary app: its shader library, the files a
//! shader is compiled from, and the compile outcome.

use vstd::prelude::*;
use crate::numbers::{digits, fmt_u64};
use crate::shaders::{cycle_scale_value, cycled_scale, is_modern, is_modern_version, version_line, version_line_of};
use crate::sorting::{keyed, sort_by_text_key, sorted_by_key};
use crate::text::{
    chars_of, concat2, ends_with, has_suffix, lines, lines_of, replace, replace_all, string_of, views, wrap_line, wrapped,
};

verus! {

/// The directory the shader tab reads and writes shaders in.
pub open spec fn shader_dir() -> Seq<char> {
    "shaders"@
}

/// What the 3D scene shows under the shader.
#[derive(Debug, Clone, Copy, PartialEq, Eq, Structural)]
pub enum ThreeDObject {
    /// Only the grid is drawn.
    Blank,
    Cube,
    Sphere,
    Pyramid,
    Fullscreen,
}

/// The fragment shader written when the selected one does not exist.
pub open spec fn default_fragment() -> Seq<char> {
    "#version 150\nprecision lowp float;\nin vec2 uv;\nout vec4 fragColor;\nuniform sampler2D AudioTexture;\nvoid main() {\n    float audio = texture(AudioTexture, vec2(uv.x, 0.5)).r;\n    fragColor = vec4(audio, 0.5, 1.0, 1.0);\n}\n"@
}

/// The vertex shader used when a fragment shader has no `.vert` file and
/// names GLSL 400, 330 or 150 on its first line `version`.
pub open spec fn modern_vertex_file(version: Seq<char>) -> Seq<char> {
    version + "\nin vec3 position;\nin vec2 texcoord;\nout vec2 uv;\nuniform mat4 Model;\nuniform mat4 Projection;\n\nvoid main() {\n    gl_Position = Projection * Model * vec4(position, 1.0);\n    uv = texcoord;\n}\n"@
}

/// The GLSL 100 vertex shader used otherwise.
pub open spec fn legacy_vertex_file() -> Seq<char> {
    "#version 100\nattribute vec3 position;\nattribute vec2 texcoord;\nvarying lowp vec2 uv;\nuniform mat4 Model;\nuniform mat4 Projection;\n\nvoid main() {\n    gl_Position = Projection * Model * vec4(position, 1.0);\n    uv = texcoord;\n}\n"@
}

/// The vertex shader used with fragment shader `frag` when it has no `.vert` file.
pub open spec fn fallback_vertex(frag: Seq<char>) -> Seq<char> {
    if is_modern(version_line(frag)) {
        modern_vertex_file(version_line(frag))
    } else {
        legacy_vertex_file()
    }
}

/// A name's sort key: its characters.
fn text_key(s: &String) -> (k: Vec<char>)
    ensures
        k@ == s@,
{
    chars_of(s.as_str())
}

/// The text of a name.
pub open spec fn name_text(s: String) -> Seq<char> {
    s@
}

/// Whether a file name is that of a fragment shader.
pub open spec fn is_frag_name(s: String) -> bool {
    has_suffix(s@, ".frag"@)
}

/// The order shader files are listed in: by name.
pub open spec fn name_order() -> spec_fn(String) -> Seq<char> {
    |s: String| name_text(s)
}

/// The state of the shader tab that its decisions read and change.
pub struct ThreeDState {
    pub selected_shape: ThreeDObject,
    /// The compile error of the last compile, if it failed.
    pub shader_error: Option<String>,
    /// Pixelation factor of the render target.
    pub resolution_scale: u32,
    /// File names of the listed shaders, in order.
    pub available_shaders: Vec<String>,
    /// The file name of the active shader.
    pub selected_shader: String,
    /// Recompile when the shader file changes.
    pub auto_compile: bool,
    pub show_controls: bool,
    pub show_library: bool,
    /// When the shader file was last seen changed (a clock reading), if ever.
    pub last_modified: Option<u64>,
}

/// A file modified at `modified` is newer than what was last seen at `last`.
pub open spec fn changed_since(last: Option<u64>, modified: u64) -> bool {
    match last {
        None => true,
        Some(t) => modified > t,
    }
}

impl ThreeDState {
    /// The tab as it starts: nothing drawn, `default.frag` selected, auto-compile on.
    pub fn new() -> (s: Self)
        ensures
            s.selected_shape == ThreeDObject::Blank,
            s.shader_error is None,
            s.resolution_scale == 1,
            s.available_shaders@.len() == 0,
            s.selected_shader@ == "default.frag"@,
            s.auto_compile,
            s.show_controls,
            s.show_library,
            s.last_modified is None,
    {
        ThreeDState {
            selected_shape: ThreeDObject::Blank,
            shader_error: None,
            resolution_scale: 1,
            available_shaders: Vec::new(),
            selected_shader: "default.frag".to_owned(),
            auto_compile: true,
            show_controls: true,
            show_library: true,
            last_modified: None,
        }
    }

    /// Replaces the library with the `.frag` files among the regular files
    /// listed in the shader directory, sorted by name.
    pub fn set_shader_list(&mut self, file_names: Vec<String>)
        ensures
            sorted_by_key(final(self).available_shaders@, name_order()),
            final(self).available_shaders@.to_multiset() == file_names@.filter(
                |s: String| is_frag_name(s),
            ).to_multiset(),
            forall|k: Seq<char>|
                #[trigger] final(self).available_shaders@.filter(keyed(name_order(), k))
                    == file_names@.filter(|s: String| is_frag_name(s)).filter(
                    keyed(name_order(), k),
                ),
            final(self).selected_shader == old(self).selected_shader,
    {
        let ghost pred = |s: String| is_frag_name(s);
        let mut kept: Vec<String> = Vec::new();
        let mut rest = file_names;
        let ghost input_seq = rest@;
        let mut taken: usize = 0;
        let n = rest.len();
        assert(input_seq.take(0).filter(pred) =~= Seq::<String>::empty()) by {
            reveal(Seq::filter);
        }
        while rest.len() > 0
            invariant
                taken + rest@.len() == input_seq.len(),
                n == input_seq.len(),
                rest@ == input_seq.skip(taken as int),
                kept@ == input_seq.take(taken as int).filter(pred),
                pred == (|s: String| is_frag_name(s)),
            decreases rest.len(),
        {
            let e = rest.remove(0);
            assert(rest@ =~= input_seq.skip(taken + 1));
            assert(e == input_seq[taken as int]);
            assert(input_seq.take(taken + 1).drop_last() =~= input_seq.take(taken as int));
            assert(input_seq.take(taken + 1).last() == e);
            let is_f = ends_with(e.as_str(), ".frag");
            assert(is_f == pred(e));
            proof {
                reveal(Seq::filter);
            }
            if is_f {
                kept.push(e);
            }
            taken += 1;
        }
        assert(input_seq.take(taken as int) =~= input_seq);
        self.available_shaders = sort_by_text_key(kept, text_key, Ghost(name_order()));
    }

    /// Auto-compile check for a shader file whose modification time reads
    /// `modified` (none when it cannot be read): with auto-compile on and a
    /// newer time than last seen, the time is kept and a compile is due.
    pub fn auto_compile_check(&mut self, modified: Option<u64>) -> (recompile: bool)
        ensures
            recompile == (old(self).auto_compile && (modified matches Some(m) && changed_since(
                old(self).last_modified,
                m,
            ))),
            recompile ==> final(self).last_modified == modified,
            !recompile ==> final(self).last_modified == old(self).last_modified,
            final(self).auto_compile == old(self).auto_compile,
            final(self).selected_shader == old(self).selected_shader,
    {
        if !self.auto_compile {
            return false;
        }
        match modified {
            Some(m) => {
                let newer = match self.last_modified {
                    None => true,
                    Some(t) => m > t,
                };
                if newer {
                    self.last_modified = Some(m);
                }
                newer
            },
            None => false,
        }
    }

    /// The path of the selected fragment shader: `shaders/<name>`.
    pub fn fragment_path(&self) -> (p: String)
        ensures
            p@ == shader_dir() + "/"@ + self.selected_shader@,
    {
        let mut p = "shaders".to_owned();
        p.append("/");
        p.append(self.selected_shader.as_str());
        p
    }

    /// The path of the vertex shader that goes with a fragment shader path:
    /// every `.frag` in it becomes `.vert`.
    pub fn vertex_path(frag_path: &str) -> (p: String)
        ensures
            p@ == replace_all(frag_path@, ".frag"@, ".vert"@),
    {
        proof {
            reveal_strlit(".frag");
        }
        replace(frag_path, ".frag", ".vert")
    }

    /// The vertex shader used with the fragment source `frag` when no
    /// `.vert` file exists.
    pub fn fallback_vertex(frag: &str) -> (r: String)
        ensures
            r@ == fallback_vertex(frag@),
    {
        let version = version_line_of(frag);
        if is_modern_version(&version) {
            let mut r = string_of(&version);
            r.append("\nin vec3 position;\nin vec2 texcoord;\nout vec2 uv;\nuniform mat4 Model;\nuniform mat4 Projection;\n\nvoid main() {\n    gl_Position = Projection * Model * vec4(position, 1.0);\n    uv = texcoord;\n}\n");
            r
        } else {
            "#version 100\nattribute vec3 position;\nattribute vec2 texcoord;\nvarying lowp vec2 uv;\nuniform mat4 Model;\nuniform mat4 Projection;\n\nvoid main() {\n    gl_Position = Projection * Model * vec4(position, 1.0);\n    uv = texcoord;\n}\n".to_owned()
        }
    }

    /// The fragment shader written when the selected one does not exist.
    pub fn default_fragment() -> (r: &'static str)
        ensures
            r@ == default_fragment(),
    {
        "#version 150\nprecision lowp float;\nin vec2 uv;\nout vec4 fragColor;\nuniform sampler2D AudioTexture;\nvoid main() {\n    float audio = texture(AudioTexture, vec2(uv.x, 0.5)).r;\n    fragColor = vec4(audio, 0.5, 1.0, 1.0);\n}\n"
    }

    /// Records how the last compile went: no error, or its message.
    pub fn compile_finished(&mut self, error: Option<String>)
        ensures
            final(self).shader_error == error,
            final(self).selected_shader == old(self).selected_shader,
            final(self).resolution_scale == old(self).resolution_scale,
    {
        self.shader_error = error;
    }

    /// "Cycle Scale": doubles the pixel scale, back to 1 past 64.
    pub fn cycle_scale(&mut self)
        requires
            old(self).resolution_scale <= u32::MAX / 2,
        ensures
            final(self).resolution_scale == cycled_scale(old(self).resolution_scale, 64),
            final(self).selected_shader == old(self).selected_shader,
    {
        self.resolution_scale = cycle_scale_value(self.resolution_scale, 64);
    }

    /// The file name of a new shader created at `seconds` since start.
    pub fn new_shader_name(seconds: u32) -> (r: String)
        ensures
            r@ == "shader_"@ + digits(seconds as nat) + ".frag"@,
    {
        let num = fmt_u64(seconds as u64);
        let mut r = concat2("shader_", num.as_str());
        r.append(".frag");
        r
    }
}

/// The display rows of the compile error whose lines are `ls`, at `max`
/// characters per row: each line as it is when it fits, otherwise cut.
pub open spec fn error_rows_of(ls: Seq<Seq<char>>, max: nat) -> Seq<Seq<char>>
    decreases ls.len(),
{
    if ls.len() == 0 {
        seq![]
    } else {
        error_rows_of(ls.drop_last(), max) + wrapped(ls.last(), max)
    }
}

/// The rows in which the compile error `err` is shown, `max` characters per row.
pub fn error_rows(err: &str, max: usize) -> (r: Vec<String>)
    requires
        max > 0,
    ensures
        views(r@) == error_rows_of(lines(err@), max as nat),
{
    let ls = lines_of(err);
    let mut r: Vec<String> = Vec::new();
    let mut i: usize = 0;
    while i < ls.len()
        invariant
            max > 0,
            i <= ls.len(),
            views(ls@) == lines(err@),
            views(r@) == error_rows_of(views(ls@).take(i as int), max as nat),
        decreases ls.len() - i,
    {
        let mut rows = wrap_line(ls[i].as_str(), max);
        let ghost before = views(r@);
        let ghost added = views(rows@);
        r.append(&mut rows);
        assert(views(ls@).take(i + 1).drop_last() =~= views(ls@).take(i as int));
        assert(views(ls@)[i as int] == ls@[i as int]@);
        assert(views(r@) =~= before + added);
        i += 1;
    }
    assert(views(ls@).take(ls.len() as int) =~= views(ls@));
    r
}

} // verus!

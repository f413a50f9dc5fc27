//! The shader applet's decisions: which fragment shaders the library lists,
//! which one is active, the vertex shader that goes with it, the pixel scale
//! and the HUD.

use vstd::prelude::*;
use crate::api::{defines, HotkeyDefinition, HotkeyModifiers, HotkeyScope};
use crate::engine::RayExtension;
use crate::sorting::{keyed, sort_by_text_key, sorted_by_key};
use crate::text::{chars_of, contains, contains_seq, ends_with, first_line, first_line_of, has_suffix, occurs_at, string_of};

verus! {

/// How the shader is drawn.
#[derive(Debug, Clone, Copy, PartialEq, Eq, Structural)]
pub enum RenderMode {
    /// Only the grid is drawn.
    Blank,
    Cube,
    Sphere,
    Pyramid,
    Fullscreen,
}

/// The pixel scale after one press of "Cycle Scale": doubled, back to 1 past `max`.
pub open spec fn cycled_scale(scale: u32, max: u32) -> u32 {
    if scale * 2 > max {
        1
    } else {
        (scale * 2) as u32
    }
}

/// Doubles the pixel scale, wrapping back to 1 once it exceeds `max`.
pub fn cycle_scale_value(scale: u32, max: u32) -> (r: u32)
    requires
        scale <= u32::MAX / 2,
    ensures
        r == cycled_scale(scale, max),
{
    let doubled = scale * 2;
    if doubled > max {
        1
    } else {
        doubled
    }
}

/// The pixel scales the shader applet cycles through.
pub open spec fn is_shader_scale(s: u32) -> bool {
    s == 1 || s == 2 || s == 4 || s == 8 || s == 16 || s == 32
}

/// Cycling keeps the scale a power of two up to 32 and comes back to where it
/// started after six presses.
pub proof fn law_cycle_scale(s: u32)
    requires
        is_shader_scale(s),
    ensures
        is_shader_scale(cycled_scale(s, 32)),
        cycled_scale(
            cycled_scale(
                cycled_scale(cycled_scale(cycled_scale(cycled_scale(s, 32), 32), 32), 32),
                32,
            ),
            32,
        ) == s,
{
}

/// The characters of an entry's file name, its sort key.
fn name_key(e: &(String, String)) -> (k: Vec<char>)
    ensures
        k@ == e.0@,
{
    chars_of(e.0.as_str())
}

/// Whether a listed file is a fragment shader.
pub open spec fn is_frag(entry: (String, String)) -> bool {
    has_suffix(entry.0@, ".frag"@)
}

/// The sort key of a listed shader: its file name.
pub open spec fn shader_name(entry: (String, String)) -> Seq<char> {
    entry.0@
}

/// The order shaders are listed in: by file name.
pub open spec fn shader_order() -> spec_fn((String, String)) -> Seq<char> {
    |e: (String, String)| shader_name(e)
}

/// The vertex shader written for a fragment shader whose first line is
/// `version` when that line names GLSL 400, 330 or 150.
pub open spec fn modern_vertex(version: Seq<char>) -> Seq<char> {
    version + "\n                in vec3 position;\n                in vec2 texcoord;\n                out vec2 uv;\n                uniform mat4 Model;\n                uniform mat4 Projection;\n                void main() {\n                    gl_Position = Projection * Model * vec4(position, 1.0);\n                    uv = texcoord;\n                }"@
}

/// The GLSL 100 vertex shader used otherwise.
pub open spec fn legacy_vertex() -> Seq<char> {
    "#version 100\n            attribute vec3 position;\n            attribute vec2 texcoord;\n            varying lowp vec2 uv;\n            uniform mat4 Model;\n            uniform mat4 Projection;\n            void main() {\n                gl_Position = Projection * Model * vec4(position, 1.0);\n                uv = texcoord;\n            }"@
}

/// The version line of a fragment shader: its first line, or `#version 100`.
pub open spec fn version_line(frag: Seq<char>) -> Seq<char> {
    match first_line(frag) {
        Some(l) => l,
        None => "#version 100"@,
    }
}

/// The version line asks for a desktop GLSL version.
pub open spec fn is_modern(version: Seq<char>) -> bool {
    contains_seq(version, "400"@) || contains_seq(version, "330"@) || contains_seq(version, "150"@)
}

/// The vertex shader compiled together with the fragment shader `frag`.
pub open spec fn vertex_for(frag: Seq<char>) -> Seq<char> {
    if is_modern(version_line(frag)) {
        modern_vertex(version_line(frag))
    } else {
        legacy_vertex()
    }
}

/// `v` holds the three characters `a`, `b`, `c` in a row.
pub open spec fn holds_digits(v: Seq<char>, a: char, b: char, c: char) -> bool {
    exists|k: int| 0 <= k && k + 3 <= v.len() && v[k] == a && v[k + 1] == b && v[#[trigger] (k + 2)] == c
}

/// A fragment shader whose version line names GLSL 400, 330 or 150 gets the
/// vertex shader in its own version (its version line, then the `in`/`out`
/// declarations); any other gets the GLSL 100 one.
pub proof fn law_vertex_follows_version(frag: Seq<char>)
    ensures
        ({
            let v = version_line(frag);
            if holds_digits(v, '4', '0', '0') || holds_digits(v, '3', '3', '0') || holds_digits(
                v,
                '1',
                '5',
                '0',
            ) {
                vertex_for(frag) == v + "\n                in vec3 position;\n                in vec2 texcoord;\n                out vec2 uv;\n                uniform mat4 Model;\n                uniform mat4 Projection;\n                void main() {\n                    gl_Position = Projection * Model * vec4(position, 1.0);\n                    uv = texcoord;\n                }"@
            } else {
                vertex_for(frag) == legacy_vertex()
            }
        }),
{
    let v = version_line(frag);
    reveal_strlit("400");
    reveal_strlit("330");
    reveal_strlit("150");
    lemma_holds_digits(v, "400"@);
    lemma_holds_digits(v, "330"@);
    lemma_holds_digits(v, "150"@);
}

/// Holding the three characters of `p` in a row is containing `p`.
proof fn lemma_holds_digits(v: Seq<char>, p: Seq<char>)
    requires
        p.len() == 3,
    ensures
        contains_seq(v, p) <==> holds_digits(v, p[0], p[1], p[2]),
{
    if contains_seq(v, p) {
        let k = choose|k: int| occurs_at(v, p, k);
        assert(v.subrange(k, k + 3)[0] == v[k]);
        assert(v.subrange(k, k + 3)[1] == v[k + 1]);
        assert(v.subrange(k, k + 3)[2] == v[k + 2]);
    }
    if holds_digits(v, p[0], p[1], p[2]) {
        let k = choose|k: int|
            0 <= k && k + 3 <= v.len() && v[k] == p[0] && v[k + 1] == p[1] && v[#[trigger] (k + 2)] == p[2];
        assert(v.subrange(k, k + 3) =~= p);
        assert(occurs_at(v, p, k));
    }
}

/// The version line of a fragment shader: its first line, or `#version 100`.
pub fn version_line_of(frag: &str) -> (r: Vec<char>)
    ensures
        r@ == version_line(frag@),
{
    let fv = chars_of(frag);
    match first_line_of(&fv) {
        Some(l) => l,
        None => chars_of("#version 100"),
    }
}

/// Whether a version line asks for GLSL 400, 330 or 150.
pub fn is_modern_version(version: &Vec<char>) -> (b: bool)
    ensures
        b == is_modern(version@),
{
    contains(version, &chars_of("400")) || contains(version, &chars_of("330")) || contains(
        version,
        &chars_of("150"),
    )
}

/// The state of the shader applet that its decisions read and change.
pub struct ShaderApplet {
    /// Directories searched for fragment shaders.
    pub shader_dirs: Vec<String>,
    /// The file name of the active shader.
    pub selected_shader: String,
    pub render_mode: RenderMode,
    /// Pixelation factor of the render target.
    pub resolution_scale: u32,
    pub show_controls: bool,
    pub show_library: bool,
    /// The whole HUD is shown.
    pub hud_visible: bool,
    /// Listed shaders: (file name, path), in name order.
    pub available_shaders: Vec<(String, String)>,
    /// The modification time (a clock reading) of the active shader file when
    /// it was last loaded, if ever.
    pub last_modified: Option<u64>,
}

impl ShaderApplet {
    /// The applet as it starts: the bundled shader directory, `default.frag`,
    /// full-screen drawing, no pixelation, every panel shown.
    pub fn new() -> (a: Self)
        ensures
            a.shader_dirs@.len() == 1,
            a.shader_dirs@[0]@ == "ray-applets/legacy/shaders"@,
            a.selected_shader@ == "default.frag"@,
            a.render_mode == RenderMode::Fullscreen,
            a.resolution_scale == 1,
            a.show_controls,
            a.show_library,
            a.hud_visible,
            a.available_shaders@.len() == 0,
            a.last_modified is None,
    {
        let mut dirs: Vec<String> = Vec::new();
        dirs.push("ray-applets/legacy/shaders".to_owned());
        ShaderApplet {
            shader_dirs: dirs,
            selected_shader: "default.frag".to_owned(),
            render_mode: RenderMode::Fullscreen,
            resolution_scale: 1,
            show_controls: true,
            show_library: true,
            hud_visible: true,
            available_shaders: Vec::new(),
            last_modified: None,
        }
    }

    /// Replaces the shader list with the `.frag` files among the listed
    /// directory entries (file name, path), sorted by file name.
    pub fn set_shader_list(&mut self, entries: Vec<(String, String)>)
        ensures
            sorted_by_key(final(self).available_shaders@, shader_order()),
            final(self).available_shaders@.to_multiset() == entries@.filter(
                |e: (String, String)| is_frag(e),
            ).to_multiset(),
            forall|k: Seq<char>|
                #[trigger] final(self).available_shaders@.filter(
                    keyed(shader_order(), k),
                ) == entries@.filter(|e: (String, String)| is_frag(e)).filter(
                    keyed(shader_order(), k),
                ),
            final(self).selected_shader == old(self).selected_shader,
            final(self).resolution_scale == old(self).resolution_scale,
            final(self).hud_visible == old(self).hud_visible,
    {
        let ghost pred = |e: (String, String)| is_frag(e);
        let mut kept: Vec<(String, String)> = Vec::new();
        let mut rest = entries;
        let ghost input_seq = rest@;
        let mut taken: usize = 0;
        let n = rest.len();
        assert(input_seq.take(0).filter(pred) =~= Seq::<(String, String)>::empty());
        while rest.len() > 0
            invariant
                taken + rest@.len() == input_seq.len(),
                n == input_seq.len(),
                rest@ == input_seq.skip(taken as int),
                kept@ == input_seq.take(taken as int).filter(pred),
                pred == (|e: (String, String)| is_frag(e)),
            decreases rest.len(),
        {
            let e = rest.remove(0);
            assert(rest@ =~= input_seq.skip(taken + 1));
            assert(e == input_seq[taken as int]);
            assert(input_seq.take(taken + 1).drop_last() =~= input_seq.take(taken as int));
            assert(input_seq.take(taken + 1).last() == e);
            let ghost before = kept@;
            let is_f = ends_with(e.0.as_str(), ".frag");
            assert(is_f == pred(e));
            proof {
                reveal(Seq::filter);
            }
            assert(input_seq.take(taken + 1).filter(pred) == (if pred(e) {
                input_seq.take(taken as int).filter(pred).push(e)
            } else {
                input_seq.take(taken as int).filter(pred)
            }));
            if is_f {
                kept.push(e);
            }
            taken += 1;
        }
        assert(input_seq.take(taken as int) =~= input_seq);
        let sorted = sort_by_text_key(
            kept,
            name_key,
            Ghost(shader_order()),
        );
        self.available_shaders = sorted;
    }

    /// The path of the selected shader: the first listed one with its name.
    pub fn current_shader_path(&self) -> (r: Option<String>)
        ensures
            r matches Some(p) ==> exists|i: int|
                0 <= i < self.available_shaders@.len() && self.available_shaders@[i].0@
                    == self.selected_shader@ && p@ == self.available_shaders@[i].1@ && forall|j: int|
                    0 <= j < i ==> self.available_shaders@[j].0@ != self.selected_shader@,
            r is None ==> forall|i: int|
                0 <= i < self.available_shaders@.len() ==> self.available_shaders@[i].0@
                    != self.selected_shader@,
    {
        let mut i: usize = 0;
        while i < self.available_shaders.len()
            invariant
                i <= self.available_shaders@.len(),
                forall|j: int| 0 <= j < i ==> self.available_shaders@[j].0@ != self.selected_shader@,
            decreases self.available_shaders.len() - i,
        {
            if self.available_shaders[i].0 == self.selected_shader {
                return Some(self.available_shaders[i].1.clone());
            }
            i += 1;
        }
        None
    }

    /// The active shader file reads modification time `modified` (none when
    /// it cannot be read): a time other than the one last loaded is kept and
    /// the shader is due for reloading.
    pub fn check_file_update(&mut self, modified: Option<u64>) -> (reload: bool)
        ensures
            reload == (modified is Some && modified != old(self).last_modified),
            reload ==> final(self).last_modified == modified,
            !reload ==> final(self).last_modified == old(self).last_modified,
            final(self).selected_shader == old(self).selected_shader,
            final(self).available_shaders == old(self).available_shaders,
    {
        match modified {
            Some(m) => {
                let same = match self.last_modified {
                    Some(t) => t == m,
                    None => false,
                };
                if !same {
                    self.last_modified = Some(m);
                }
                !same
            },
            None => false,
        }
    }

    /// Reacts to a triggered hotkey: `toggle_hud` shows or hides the HUD;
    /// nothing else changes.
    pub fn on_hotkey(&mut self, id: &str)
        ensures
            final(self).hud_visible == (if id@ == "toggle_hud"@ {
                !old(self).hud_visible
            } else {
                old(self).hud_visible
            }),
            *final(self) == (ShaderApplet { hud_visible: final(self).hud_visible, ..*old(self) }),
    {
        let mine = "toggle_hud".to_owned();
        let given = id.to_owned();
        if given == mine {
            self.hud_visible = !self.hud_visible;
        }
    }

    /// "Cycle Scale": doubles the pixel scale, back to 1 past 32.
    pub fn cycle_scale(&mut self)
        requires
            old(self).resolution_scale <= u32::MAX / 2,
        ensures
            final(self).resolution_scale == cycled_scale(old(self).resolution_scale, 32),
            final(self).hud_visible == old(self).hud_visible,
            final(self).selected_shader == old(self).selected_shader,
            final(self).render_mode == old(self).render_mode,
    {
        self.resolution_scale = cycle_scale_value(self.resolution_scale, 32);
    }

    /// "Add Default Path": searches the bundled shader directory once more.
    pub fn add_default_path(&mut self)
        ensures
            final(self).shader_dirs@.len() == old(self).shader_dirs@.len() + 1,
            final(self).shader_dirs@.drop_last() == old(self).shader_dirs@,
            final(self).shader_dirs@.last()@ == "ray-applets/legacy/shaders"@,
            final(self).selected_shader == old(self).selected_shader,
    {
        self.shader_dirs.push("ray-applets/legacy/shaders".to_owned());
        assert(self.shader_dirs@.drop_last() =~= old(self).shader_dirs@);
    }

    /// The vertex shader compiled with the fragment shader source `frag`:
    /// one in the fragment shader's own GLSL version when its first line
    /// names 400, 330 or 150, the GLSL 100 one otherwise.
    pub fn vertex_source(frag: &str) -> (r: String)
        ensures
            r@ == vertex_for(frag@),
    {
        let version = version_line_of(frag);
        if is_modern_version(&version) {
            let mut r = string_of(&version);
            r.append("\n                in vec3 position;\n                in vec2 texcoord;\n                out vec2 uv;\n                uniform mat4 Model;\n                uniform mat4 Projection;\n                void main() {\n                    gl_Position = Projection * Model * vec4(position, 1.0);\n                    uv = texcoord;\n                }");
            r
        } else {
            "#version 100\n            attribute vec3 position;\n            attribute vec2 texcoord;\n            varying lowp vec2 uv;\n            uniform mat4 Model;\n            uniform mat4 Projection;\n            void main() {\n                gl_Position = Projection * Model * vec4(position, 1.0);\n                uv = texcoord;\n            }".to_owned()
        }
    }
}

impl ShaderApplet {
    /// The hotkey the shader applet registers: H, without modifiers, toggles
    /// the editor overlay while the applet has focus.
    pub fn hotkeys() -> (v: Vec<HotkeyDefinition>)
        ensures
            v@.len() == 1,
            defines(
                v@[0],
                "toggle_hud"@,
                "H"@,
                HotkeyModifiers::none_spec(),
                HotkeyScope::Local,
                "Toggle Shader IDE HUD"@,
            ),
    {
        let mut v: Vec<HotkeyDefinition> = Vec::new();
        v.push(
            HotkeyDefinition::new(
                "toggle_hud",
                "H",
                HotkeyModifiers::none(),
                HotkeyScope::Local,
                "Toggle Shader IDE HUD",
            ),
        );
        v
    }
}

impl RayExtension for ShaderApplet {
    fn name(&self) -> (n: &str)
        ensures
            n@ == "Shader IDE"@,
    {
        "Shader IDE"
    }
}

} // verus!

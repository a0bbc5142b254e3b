use vstd::prelude::*;
use vstd::string::*;
use crate::bitmap::FilterKind;
use crate::errors::Errors;
use crate::template::Template;

verus! {

/// What the configuration file supplies at startup. The blur parameter is in
/// 64ths of a pixel.
#[derive(Debug)]
pub struct ServerConfig {
    pub templates: Vec<Template>,
    pub default_font: String,
    pub textdraw_text_max_len: usize,
    pub blur_sigma: u32,
    pub colorfill_image_size: u32,
    pub allow_local_file_input: bool,
    pub resize_filtertype: FilterKind,
}

/// The resize filter that a configured name stands for.
pub open spec fn filter_named(name: Seq<char>) -> Option<FilterKind> {
    if name == "nearest"@ {
        Some(FilterKind::Nearest)
    } else if name == "triangle"@ {
        Some(FilterKind::Triangle)
    } else if name == "catmullrom"@ {
        Some(FilterKind::CatmullRom)
    } else if name == "gaussian"@ {
        Some(FilterKind::Gaussian)
    } else if name == "lanczos3"@ {
        Some(FilterKind::Lanczos3)
    } else {
        None
    }
}

fn is_text(name: &String, text: &str) -> (same: bool)
    ensures
        same == (name@ == text@),
{
    *name == String::from_str(text)
}

/// Reads the name of a resize filter; `None` for a name that stands for
/// none.
pub fn parse_filtertype(name: &String) -> (kind: Option<FilterKind>)
    ensures
        kind == filter_named(name@),
{
    if is_text(name, "nearest") {
        Some(FilterKind::Nearest)
    } else if is_text(name, "triangle") {
        Some(FilterKind::Triangle)
    } else if is_text(name, "catmullrom") {
        Some(FilterKind::CatmullRom)
    } else if is_text(name, "gaussian") {
        Some(FilterKind::Gaussian)
    } else if is_text(name, "lanczos3") {
        Some(FilterKind::Lanczos3)
    } else {
        None
    }
}

impl ServerConfig {
    /// No template before position `n` carries the name.
    pub open spec fn none_named_before(&self, name: Seq<char>, n: int) -> bool {
        forall|j: int| 0 <= j < n ==> (#[trigger] self.templates@[j]).name@ != name
    }

    /// The first template of the given name; the error names the template
    /// that was asked for where there is none.
    pub fn get_template(&self, name: String) -> (r: Result<&Template, Errors>)
        ensures
            match r {
                Ok(template) => exists|i: int|
                    0 <= i < self.templates@.len() && #[trigger] self.templates@[i] == *template
                        && template.name@ == name@ && self.none_named_before(name@, i),
                Err(error) => error matches Errors::InvalidTemplate(n) && n@ == name@
                    && self.none_named_before(name@, self.templates@.len() as int),
            },
    {
        let mut i: usize = 0;
        while i < self.templates.len()
            invariant
                i <= self.templates@.len(),
                self.none_named_before(name@, i as int),
            decreases self.templates@.len() - i,
        {
            if self.templates[i].name == name {
                return Ok(&self.templates[i]);
            }
            i = i + 1;
        }
        Err(Errors::InvalidTemplate(name))
    }

    /// The filter used where an overlay is scaled.
    pub fn resize_filtertype(&self) -> (kind: FilterKind)
        ensures
            kind == self.resize_filtertype,
    {
        self.resize_filtertype
    }
}

} // verus!

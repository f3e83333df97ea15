//! Installation targets: where an acquired cache file is copied to, under
//! each supported output layout.

use vstd::prelude::*;

use crate::acquire::spec_extension;
use crate::acquire::extension_of;
use crate::codec::{dec_digits, italic_token, u32_to_string, variable_token};
use crate::font::{
    DefinedFontInstallSpec, DefinedFontStyle, DefinedFontVariantSpec, DefinedFontWeight,
    FontDescription,
};

verus! {

/// How installed files are laid out: all in one directory, or one
/// directory per family.
#[derive(PartialEq, Eq, Structural, Copy, Clone, Debug)]
pub enum OutputFormat {
    Flat,
    FlatDirectory,
}

/// The file-name part that names a variant: `-regular` for the regular
/// 400 variant, otherwise the weight (left out at 400, `wght` when
/// variable) and the style, each with a leading dash.
pub open spec fn spec_variant_suffix(v: DefinedFontVariantSpec) -> Seq<char> {
    if v == (DefinedFontVariantSpec {
        weight: DefinedFontWeight::Fixed(400),
        style: DefinedFontStyle::Regular,
    }) {
        seq!['-'] + crate::codec::regular_token()
    } else {
        let style = match v.style {
            DefinedFontStyle::Regular => Seq::<char>::empty(),
            DefinedFontStyle::Italic => seq!['-'] + italic_token(),
        };
        match v.weight {
            DefinedFontWeight::Fixed(w) => if w == 400 {
                style
            } else {
                seq!['-'] + dec_digits(w as nat) + style
            },
            DefinedFontWeight::Variable => seq!['-'] + variable_token() + style,
        }
    }
}

/// The installed file's name: family identifier, variant suffix, and the
/// extension kept from the cache file.
pub open spec fn spec_install_file_name(
    id: Seq<char>,
    v: DefinedFontVariantSpec,
    source_path: Seq<char>,
) -> Seq<char> {
    id + spec_variant_suffix(v) + spec_extension(source_path)
}

impl OutputFormat {
    /// The target path of one installed variant under this layout.
    pub open spec fn spec_get_path(
        self,
        base_dir: Seq<char>,
        id: Seq<char>,
        v: DefinedFontVariantSpec,
        source_path: Seq<char>,
    ) -> Seq<char> {
        let name = spec_install_file_name(id, v, source_path);
        match self {
            OutputFormat::Flat => base_dir + seq!['/'] + name,
            OutputFormat::FlatDirectory => base_dir + seq!['/'] + id + seq!['/'] + name,
        }
    }

    /// Where one acquired variant is installed: the base directory, the
    /// family's directory under the per-family layout, then the file name
    /// derived from the variant and the cache file's extension.
    pub fn get_path(
        &self,
        base_dir: &str,
        font_spec: &DefinedFontInstallSpec,
        variant_spec: &DefinedFontVariantSpec,
        source_path: &str,
    ) -> (r: String)
        ensures
            r@ == self.spec_get_path(base_dir@, font_spec.id@, *variant_spec, source_path@),
    {
        proof {
            reveal_strlit("/");
            reveal_strlit("-regular");
            reveal_strlit("-italic");
            reveal_strlit("-wght");
            reveal_strlit("-");
            assert("/"@ =~= seq!['/']);
            assert("-regular"@ =~= seq!['-'] + crate::codec::regular_token());
            assert("-italic"@ =~= seq!['-'] + italic_token());
            assert("-wght"@ =~= seq!['-'] + variable_token());
            assert("-"@ =~= seq!['-']);
        }
        let mut r = String::from_str(base_dir);
        r.append("/");
        match self {
            OutputFormat::Flat => {},
            OutputFormat::FlatDirectory => {
                r.append(font_spec.id.as_str());
                r.append("/");
            },
        }
        r.append(font_spec.id.as_str());
        let is_regular = *variant_spec == (DefinedFontVariantSpec {
            weight: DefinedFontWeight::Fixed(400),
            style: DefinedFontStyle::Regular,
        });
        if is_regular {
            r.append("-regular");
        } else {
            match variant_spec.weight {
                DefinedFontWeight::Fixed(w) => {
                    if w != 400 {
                        r.append("-");
                        let digits = u32_to_string(w);
                        r.append(digits.as_str());
                    }
                },
                DefinedFontWeight::Variable => {
                    r.append("-wght");
                },
            }
            match variant_spec.style {
                DefinedFontStyle::Regular => {},
                DefinedFontStyle::Italic => {
                    r.append("-italic");
                },
            }
        }
        let ext = extension_of(source_path);
        r.append(ext.as_str());
        proof {
            assert(r@ =~= self.spec_get_path(
                base_dir@,
                font_spec.id@,
                *variant_spec,
                source_path@,
            ));
        }
        r
    }

    /// The target path of a file that belongs to a family but not to one
    /// variant, such as a generated stylesheet.
    pub open spec fn spec_get_misc_path(
        self,
        base_dir: Seq<char>,
        id: Seq<char>,
        name: Seq<char>,
    ) -> Seq<char> {
        match self {
            OutputFormat::Flat => base_dir + seq!['/'] + name,
            OutputFormat::FlatDirectory => base_dir + seq!['/'] + id + seq!['/'] + name,
        }
    }

    pub fn get_misc_path(&self, base_dir: &str, font_desc: &FontDescription, name: &str) -> (r:
        String)
        ensures
            r@ == self.spec_get_misc_path(base_dir@, font_desc.id@, name@),
    {
        proof {
            reveal_strlit("/");
            assert("/"@ =~= seq!['/']);
        }
        let mut r = String::from_str(base_dir);
        r.append("/");
        match self {
            OutputFormat::Flat => {},
            OutputFormat::FlatDirectory => {
                r.append(font_desc.id.as_str());
                r.append("/");
            },
        }
        r.append(name);
        proof {
            assert(r@ =~= self.spec_get_misc_path(base_dir@, font_desc.id@, name@));
        }
        r
    }
}

/// The failures of stylesheet generation.
#[derive(PartialEq, Eq, Clone, Debug)]
pub enum GenerateError {
    /// A path could not be related to the stylesheet's directory.
    PathError(String),
}

} // verus!

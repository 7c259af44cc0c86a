//! Turns a module's documentation comments into a standalone README text.
//!
//! The work is split between three small components:
//!
//! - [`extractor`] scans raw source lines, keeps only documentation-comment
//!   lines, tracks fenced example blocks, and emits normalized output lines.
//! - [`text`] holds the verified string utilities (search, replacement,
//!   trimming, folding) the other components are specified with.
//! - [`renderer`] decorates the folded body with a title and license line, or
//!   substitutes it into a placeholder template under a strict validation
//!   policy.
//!
//! [`generate_readme`] ties the three together. The caller is expected to do
//! all I/O itself: it hands over the source lines, the template text and a
//! ready-made [`renderer::CrateInfo`] record, and receives the finished text.

use vstd::prelude::*;

pub mod extractor;
pub mod renderer;
pub mod text;

use renderer::CrateInfo;
use renderer::RenderError;

verus! {

/// What [`generate_readme`] returns, stated over the component
/// specifications: the source lines are extracted and folded into a body,
/// then either substituted into the template or decorated directly.
pub open spec fn generate_readme_spec(
    lines: Seq<Seq<char>>,
    template: Option<Seq<char>>,
    name: Seq<char>,
    license: Option<Seq<char>>,
    add_title: bool,
    add_license: bool,
    indent_headings: bool,
) -> Result<Seq<char>, RenderError> {
    let body = text::fold_spec(extractor::extract_spec(lines, indent_headings));
    if add_license && license is None {
        Err(RenderError::MissingLicense)
    } else {
        match template {
            Some(t) => renderer::process_template_spec(
                t,
                body,
                name,
                license,
                add_title,
                add_license,
            ),
            None => {
                let titled = if add_title {
                    renderer::prepend_title_spec(body, name)
                } else {
                    body
                };
                let licensed = if add_license {
                    renderer::append_license_spec(titled, license.unwrap())
                } else {
                    titled
                };
                Ok(licensed)
            },
        }
    }
}

/// Law: with no template, asking for the license line without a license
/// in the metadata fails with `MissingLicense`, whatever the title and
/// indentation options say and whatever the source holds.
pub proof fn lemma_missing_license_without_template(
    lines: Seq<Seq<char>>,
    name: Seq<char>,
    add_title: bool,
    indent_headings: bool,
)
    ensures
        generate_readme_spec(lines, None, name, None, add_title, true, indent_headings) == Err::<
            Seq<char>,
            RenderError,
        >(RenderError::MissingLicense),
{
}

/// Generates the README text for the documented source `lines`.
///
/// `template`, when present, is raw template text; `crate_info` is the
/// package metadata record the caller resolved beforehand.
pub fn generate_readme(
    source: &Vec<String>,
    template: Option<&str>,
    crate_info: CrateInfo,
    add_title: bool,
    add_license: bool,
    indent_headings: bool,
) -> (r: Result<String, RenderError>)
    ensures
        ({
            let spec_r = generate_readme_spec(
                text::views(source@),
                match template {
                    Some(t) => Some(t@),
                    None => None,
                },
                crate_info.name@,
                renderer::license_view(crate_info.license),
                add_title,
                add_license,
                indent_headings,
            );
            match r {
                Ok(s) => spec_r == Ok::<Seq<char>, RenderError>(s@),
                Err(e) => spec_r == Err::<Seq<char>, RenderError>(e),
            }
        }),
{
    let doc_data = extractor::extract(source, indent_headings);
    let readme = text::fold_data(doc_data);

    if add_license && crate_info.license.is_none() {
        return Err(RenderError::MissingLicense);
    }

    match template {
        Some(template) => renderer::process_template(
            template,
            readme,
            crate_info,
            add_title,
            add_license,
        ),
        None => {
            let mut readme = readme;
            if add_title {
                readme = renderer::prepend_title(readme, crate_info.name.as_str());
            }
            if add_license {
                match &crate_info.license {
                    Some(license) => {
                        readme = renderer::append_license(readme, license.as_str());
                    },
                    None => {},
                }
            }
            Ok(readme)
        },
    }
}

} // verus!

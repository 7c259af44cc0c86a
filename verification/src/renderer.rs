//! The renderer: decorates the extracted body with a title and license
//! line, or substitutes body, crate name and license into a user template.
//!
//! Four placeholder tokens make up the whole template language; anything
//! else is copied through untouched. Validation follows a fixed order: a
//! license placeholder in the template, or the license option, demands a
//! license in the metadata; the body placeholder is mandatory.

use vstd::prelude::*;

use crate::text;

verus! {

/// The package metadata record the caller resolved from its manifest:
/// the package name, and optionally a license and the library and binary
/// entry paths.
#[derive(Clone)]
pub struct CrateInfo {
    pub name: String,
    pub license: Option<String>,
    pub bin: Option<String>,
    pub lib: Option<String>,
}

/// Why rendering failed. Both are reported to the caller as values; the
/// renderer never panics.
#[derive(Clone, Copy, Debug, PartialEq, Eq, Structural)]
pub enum RenderError {
    /// A license was demanded, by option or by a template placeholder,
    /// but the metadata carries none.
    MissingLicense,
    /// The template lacks the mandatory body placeholder.
    MissingBodyPlaceholder,
}

impl RenderError {
    /// A human-readable account of the failure.
    pub fn message(&self) -> (r: String)
        ensures
            self is MissingLicense ==> r@ == "There is no license in Cargo.toml"@,
            self is MissingBodyPlaceholder ==> r@ == "Missing `{{readme}}` in template"@,
    {
        match self {
            RenderError::MissingLicense => "There is no license in Cargo.toml".to_owned(),
            RenderError::MissingBodyPlaceholder => "Missing `{{readme}}` in template".to_owned(),
        }
    }
}

/// The license field as an optional character sequence.
pub open spec fn license_view(license: Option<String>) -> Option<Seq<char>> {
    match license {
        Some(l) => Some(l@),
        None => None,
    }
}

/// The placeholder a template declares the crate name with.
pub open spec fn crate_placeholder() -> Seq<char> {
    "{{crate}}"@
}

/// The placeholder a template declares the license with.
pub open spec fn license_placeholder() -> Seq<char> {
    "{{license}}"@
}

/// The placeholder a template receives the extracted body through.
pub open spec fn readme_placeholder() -> Seq<char> {
    "{{readme}}"@
}

/// A title line made from the crate name, followed by a blank line.
pub open spec fn prepend_title_spec(readme: Seq<char>, name: Seq<char>) -> Seq<char> {
    "# "@ + name + "\n\n"@ + readme
}

/// A license line appended after a blank line.
pub open spec fn append_license_spec(readme: Seq<char>, license: Seq<char>) -> Seq<char> {
    readme + "\n\nLicense: "@ + license
}

/// What [`process_template`] returns: the template is trimmed of trailing
/// newlines and the placeholders are substituted under the validation
/// policy, in this order.
///
/// - The title is prepended to the body only when asked for and the
///   template does not itself declare the crate placeholder; a declared
///   placeholder wins and receives the name instead.
/// - A license placeholder in the crate-substituted template demands a
///   license in the metadata, whatever the license option says; then the
///   license option alone demands one too.
/// - The license line is appended to the body only when asked for and the
///   template does not declare the license placeholder; a declared
///   placeholder receives the license whether or not the option is set.
/// - The body placeholder is mandatory and receives the body.
pub open spec fn process_template_spec(
    template: Seq<char>,
    readme: Seq<char>,
    name: Seq<char>,
    license: Option<Seq<char>>,
    add_title: bool,
    add_license: bool,
) -> Result<Seq<char>, RenderError> {
    let t0 = text::trim_newlines_spec(template);
    let prepend = add_title && !text::contains_spec(t0, crate_placeholder());
    let t1 = if prepend {
        t0
    } else {
        text::replace_spec(t0, crate_placeholder(), name)
    };
    let r1 = if prepend {
        prepend_title_spec(readme, name)
    } else {
        readme
    };
    if text::contains_spec(t1, license_placeholder()) && license is None {
        Err(RenderError::MissingLicense)
    } else if add_license && license is None {
        Err(RenderError::MissingLicense)
    } else {
        let append = add_license && !text::contains_spec(t1, license_placeholder());
        let t2 = if !append && text::contains_spec(t1, license_placeholder()) {
            text::replace_spec(t1, license_placeholder(), license.unwrap())
        } else {
            t1
        };
        let r2 = if append {
            append_license_spec(r1, license.unwrap())
        } else {
            r1
        };
        if !text::contains_spec(t2, readme_placeholder()) {
            Err(RenderError::MissingBodyPlaceholder)
        } else {
            Ok(text::replace_spec(t2, readme_placeholder(), r2))
        }
    }
}

/// Occurrences of the crate placeholder and of the license placeholder
/// never overlap: the two tokens share no compatible border.
proof fn lemma_placeholder_no_overlap(t: Seq<char>, i: int, j: int)
    requires
        text::match_at(t, license_placeholder(), i),
        text::match_at(t, crate_placeholder(), j),
    ensures
        j + crate_placeholder().len() <= i || i + license_placeholder().len() <= j,
{
    reveal_strlit("{{crate}}");
    reveal_strlit("{{license}}");
    let lic = license_placeholder();
    let cr = crate_placeholder();
    assert forall|m: int| 0 <= m < 11 implies t[i + m] == lic[m] by {
        assert(t.subrange(i, i + 11)[m] == t[i + m]);
    }
    assert forall|m: int| 0 <= m < 9 implies t[j + m] == cr[m] by {
        assert(t.subrange(j, j + 9)[m] == t[j + m]);
    }
    if !(j + 9 <= i || i + 11 <= j) {
        let d = j - i;
        assert(-8 <= d <= 10);
        if 0 <= d <= 10 {
            // the crate token would start inside the license token, but
            // its two opening braces fit nowhere there
            assert(t[i + d] == lic[d]);
            assert(i + d == j);
            assert(t[j + 0] == cr[0]);
            assert(lic[d] == '{');
            assert(d == 0 || d == 1);
            if d == 0 {
                assert(t[j + 2] == cr[2]);
                assert(t[i + 2] == lic[2]);
                assert(j + 2 == i + 2);
            } else {
                assert(t[j + 1] == cr[1]);
                assert(t[i + 2] == lic[2]);
                assert(j + 1 == i + 2);
            }
        } else {
            // the crate token would start before the license token and
            // reach into it, but none of its inner characters is a brace
            let m = -d;
            assert(1 <= m <= 8);
            assert(t[j + m] == cr[m]);
            assert(t[i + 0] == lic[0]);
            assert(j + m == i + 0);
            assert(cr[m] == '{');
            assert(m == 1);
            assert(t[j + 2] == cr[2]);
            assert(t[i + 1] == lic[1]);
            assert(j + 2 == i + 1);
        }
    }
}

/// Substituting the crate name cannot erase a license placeholder the
/// template declares.
proof fn lemma_crate_subst_preserves_license_placeholder(t: Seq<char>, name: Seq<char>)
    requires
        text::contains_spec(t, license_placeholder()),
    ensures
        text::contains_spec(
            text::replace_spec(t, crate_placeholder(), name),
            license_placeholder(),
        ),
{
    reveal_strlit("{{crate}}");
    reveal_strlit("{{license}}");
    let i = choose|i: int| text::match_at(t, license_placeholder(), i);
    assert forall|j: int| text::match_at(t, crate_placeholder(), j) implies j
        + crate_placeholder().len() <= i || i + license_placeholder().len() <= j by {
        lemma_placeholder_no_overlap(t, i, j);
    }
    text::lemma_replace_preserves_distinct_occurrence(
        t,
        crate_placeholder(),
        name,
        license_placeholder(),
        i,
    );
}

/// Law: a template that references the license placeholder demands a
/// license in the metadata; without one, rendering fails with
/// `MissingLicense`, whatever the license option says.
pub proof fn lemma_template_license_demands_license(
    template: Seq<char>,
    readme: Seq<char>,
    name: Seq<char>,
    add_title: bool,
    add_license: bool,
)
    requires
        text::contains_spec(text::trim_newlines_spec(template), license_placeholder()),
    ensures
        process_template_spec(template, readme, name, None, add_title, add_license) == Err::<
            Seq<char>,
            RenderError,
        >(RenderError::MissingLicense),
{
    let t0 = text::trim_newlines_spec(template);
    if !(add_title && !text::contains_spec(t0, crate_placeholder())) {
        lemma_crate_subst_preserves_license_placeholder(t0, name);
    }
}

/// Law: a template that declares no placeholder at all fails for want of
/// the body placeholder, whatever the options say, as long as the license
/// option's own demand is met.
pub proof fn lemma_missing_body_placeholder(
    template: Seq<char>,
    readme: Seq<char>,
    name: Seq<char>,
    license: Option<Seq<char>>,
    add_title: bool,
    add_license: bool,
)
    requires
        !text::contains_spec(text::trim_newlines_spec(template), crate_placeholder()),
        !text::contains_spec(text::trim_newlines_spec(template), license_placeholder()),
        !text::contains_spec(text::trim_newlines_spec(template), readme_placeholder()),
        add_license ==> license is Some,
    ensures
        process_template_spec(template, readme, name, license, add_title, add_license) == Err::<
            Seq<char>,
            RenderError,
        >(RenderError::MissingBodyPlaceholder),
{
    reveal_strlit("{{crate}}");
    let t0 = text::trim_newlines_spec(template);
    text::lemma_replace_identity(t0, crate_placeholder(), name);
}

/// Law: when the template does not declare the crate placeholder, asking
/// for the title is the same as prepending it to the body beforehand.
pub proof fn lemma_title_prepended_to_body(
    template: Seq<char>,
    readme: Seq<char>,
    name: Seq<char>,
    license: Option<Seq<char>>,
    add_license: bool,
)
    requires
        !text::contains_spec(text::trim_newlines_spec(template), crate_placeholder()),
    ensures
        process_template_spec(template, readme, name, license, true, add_license)
            == process_template_spec(
            template,
            prepend_title_spec(readme, name),
            name,
            license,
            false,
            add_license,
        ),
{
    reveal_strlit("{{crate}}");
    let t0 = text::trim_newlines_spec(template);
    text::lemma_replace_identity(t0, crate_placeholder(), name);
}

/// Prepends the title line to the body.
pub fn prepend_title(readme: String, crate_name: &str) -> (r: String)
    ensures
        r@ == prepend_title_spec(readme@, crate_name@),
{
    let mut new_readme = "# ".to_owned();
    new_readme.append(crate_name);
    new_readme.append("\n\n");
    new_readme.append(readme.as_str());
    new_readme
}

/// Appends the license line to the body.
pub fn append_license(readme: String, license: &str) -> (r: String)
    ensures
        r@ == append_license_spec(readme@, license@),
{
    let mut new_readme = readme;
    new_readme.append("\n\nLicense: ");
    new_readme.append(license);
    new_readme
}

/// Substitutes the body and metadata into the template, as
/// [`process_template_spec`] states.
pub fn process_template(
    template: &str,
    readme: String,
    crate_info: CrateInfo,
    add_title: bool,
    add_license: bool,
) -> (r: Result<String, RenderError>)
    ensures
        ({
            let s = process_template_spec(
                template@,
                readme@,
                crate_info.name@,
                license_view(crate_info.license),
                add_title,
                add_license,
            );
            match r {
                Ok(v) => s == Ok::<Seq<char>, RenderError>(v@),
                Err(e) => s == Err::<Seq<char>, RenderError>(e),
            }
        }),
{
    let mut template_s = text::trim_trailing_newlines(template);
    let mut readme = readme;
    let has_crate = text::contains_pat(template_s.as_str(), "{{crate}}");
    if add_title && !has_crate {
        readme = prepend_title(readme, crate_info.name.as_str());
    } else {
        proof {
            reveal_strlit("{{crate}}");
        }
        template_s = text::replace_all(template_s.as_str(), "{{crate}}", crate_info.name.as_str());
    }
    let has_license_ph = text::contains_pat(template_s.as_str(), "{{license}}");
    if has_license_ph && crate_info.license.is_none() {
        return Err(RenderError::MissingLicense);
    }
    if add_license && crate_info.license.is_none() {
        return Err(RenderError::MissingLicense);
    }
    if add_license && !has_license_ph {
        match &crate_info.license {
            Some(license) => {
                readme = append_license(readme, license.as_str());
            },
            None => {},
        }
    } else if has_license_ph {
        match &crate_info.license {
            Some(license) => {
                proof {
                    reveal_strlit("{{license}}");
                }
                template_s = text::replace_all(
                    template_s.as_str(),
                    "{{license}}",
                    license.as_str(),
                );
            },
            None => {},
        }
    }
    let has_readme_ph = text::contains_pat(template_s.as_str(), "{{readme}}");
    if !has_readme_ph {
        return Err(RenderError::MissingBodyPlaceholder);
    }
    proof {
        reveal_strlit("{{readme}}");
    }
    Ok(text::replace_all(template_s.as_str(), "{{readme}}", readme.as_str()))
}

} // verus!

use cargo_readme::generate_readme;
use cargo_readme::renderer::process_template;
use cargo_readme::renderer::CrateInfo;
use cargo_readme::renderer::RenderError;

const TEMPLATE_NO_CRATE_NO_LICENSE: &'static str = "{{readme}}";
const TEMPLATE_CRATE_NO_LICENSE: &'static str = "# {{crate}}\n\n{{readme}}";
const TEMPLATE_NO_CRATE_LICENSE: &'static str = "{{readme}}\n\nLicense: {{license}}";
const TEMPLATE_CRATE_LICENSE: &'static str = "# {{crate}}\n\n{{readme}}\n\nLicense: {{license}}";

fn crate_info(license: Option<&str>) -> CrateInfo {
    CrateInfo {
        name: "my_crate".into(),
        license: license.map(|l| l.to_string()),
        lib: None,
        bin: None,
    }
}

fn run_template(
    template: &str,
    license: Option<&str>,
    add_crate_name: bool,
    add_license: bool,
) -> Result<String, RenderError> {
    process_template(
        template,
        "# documentation".into(),
        crate_info(license),
        add_crate_name,
        add_license,
    )
}

#[test]
fn process_template_no_crate_no_license_with_license_prepend_crate_append_license() {
    let result = run_template(TEMPLATE_NO_CRATE_NO_LICENSE, Some("MIT"), true, true);
    assert_eq!(Ok("# my_crate\n\n# documentation\n\nLicense: MIT".to_string()), result);
}

#[test]
fn process_template_no_crate_no_license_without_license_prepend_crate_append_license() {
    let result = run_template(TEMPLATE_NO_CRATE_NO_LICENSE, None, true, true);
    assert_eq!(Err(RenderError::MissingLicense), result);
}

#[test]
fn process_template_no_crate_no_license_with_license_prepend_crate() {
    let result = run_template(TEMPLATE_NO_CRATE_NO_LICENSE, Some("MIT"), true, false);
    assert_eq!(Ok("# my_crate\n\n# documentation".to_string()), result);
}

#[test]
fn process_template_no_crate_no_license_without_license_prepend_crate() {
    let result = run_template(TEMPLATE_NO_CRATE_NO_LICENSE, None, true, false);
    assert_eq!(Ok("# my_crate\n\n# documentation".to_string()), result);
}

#[test]
fn process_template_no_crate_no_license_with_license_append_license() {
    let result = run_template(TEMPLATE_NO_CRATE_NO_LICENSE, Some("MIT"), false, true);
    assert_eq!(Ok("# documentation\n\nLicense: MIT".to_string()), result);
}

#[test]
fn process_template_no_crate_no_license_without_license_append_license() {
    let result = run_template(TEMPLATE_NO_CRATE_NO_LICENSE, None, false, true);
    assert_eq!(Err(RenderError::MissingLicense), result);
}

#[test]
fn process_template_no_crate_no_license_with_license() {
    let result = run_template(TEMPLATE_NO_CRATE_NO_LICENSE, Some("MIT"), false, false);
    assert_eq!(Ok("# documentation".to_string()), result);
}

#[test]
fn process_template_no_crate_no_license_without_license() {
    let result = run_template(TEMPLATE_NO_CRATE_NO_LICENSE, None, false, false);
    assert_eq!(Ok("# documentation".to_string()), result);
}

#[test]
fn process_template_crate_no_license_with_license_prepend_crate_append_license() {
    let result = run_template(TEMPLATE_CRATE_NO_LICENSE, Some("MIT"), true, true);
    assert_eq!(Ok("# my_crate\n\n# documentation\n\nLicense: MIT".to_string()), result);
}

#[test]
fn process_template_crate_no_license_without_license_prepend_crate_append_license() {
    let result = run_template(TEMPLATE_CRATE_NO_LICENSE, None, true, true);
    assert_eq!(Err(RenderError::MissingLicense), result);
}

#[test]
fn process_template_crate_no_license_with_license_prepend_crate() {
    let result = run_template(TEMPLATE_CRATE_NO_LICENSE, Some("MIT"), true, false);
    assert_eq!(Ok("# my_crate\n\n# documentation".to_string()), result);
}

#[test]
fn process_template_crate_no_license_without_license_prepend_crate() {
    let result = run_template(TEMPLATE_CRATE_NO_LICENSE, None, true, false);
    assert_eq!(Ok("# my_crate\n\n# documentation".to_string()), result);
}

#[test]
fn process_template_crate_no_license_with_license_append_license() {
    let result = run_template(TEMPLATE_CRATE_NO_LICENSE, Some("MIT"), false, true);
    assert_eq!(Ok("# my_crate\n\n# documentation\n\nLicense: MIT".to_string()), result);
}

#[test]
fn process_template_crate_no_license_without_license_append_license() {
    let result = run_template(TEMPLATE_CRATE_NO_LICENSE, None, false, true);
    assert_eq!(Err(RenderError::MissingLicense), result);
}

#[test]
fn process_template_crate_no_license_with_license() {
    let result = run_template(TEMPLATE_CRATE_NO_LICENSE, Some("MIT"), false, false);
    assert_eq!(Ok("# my_crate\n\n# documentation".to_string()), result);
}

#[test]
fn process_template_crate_no_license_without_license() {
    let result = run_template(TEMPLATE_CRATE_NO_LICENSE, None, false, false);
    assert_eq!(Ok("# my_crate\n\n# documentation".to_string()), result);
}

#[test]
fn process_template_no_crate_license_with_license_prepend_crate_append_license() {
    let result = run_template(TEMPLATE_NO_CRATE_LICENSE, Some("MIT"), true, true);
    assert_eq!(Ok("# my_crate\n\n# documentation\n\nLicense: MIT".to_string()), result);
}

#[test]
fn process_template_no_crate_license_without_license_prepend_crate_append_license() {
    let result = run_template(TEMPLATE_NO_CRATE_LICENSE, None, true, true);
    assert_eq!(Err(RenderError::MissingLicense), result);
}

#[test]
fn process_template_no_crate_license_with_license_prepend_crate() {
    let result = run_template(TEMPLATE_NO_CRATE_LICENSE, Some("MIT"), true, false);
    assert_eq!(Ok("# my_crate\n\n# documentation\n\nLicense: MIT".to_string()), result);
}

#[test]
fn process_template_no_crate_license_without_license_prepend_crate() {
    let result = run_template(TEMPLATE_NO_CRATE_LICENSE, None, true, false);
    assert_eq!(Err(RenderError::MissingLicense), result);
}

#[test]
fn process_template_no_crate_license_with_license_append_license() {
    let result = run_template(TEMPLATE_NO_CRATE_LICENSE, Some("MIT"), false, true);
    assert_eq!(Ok("# documentation\n\nLicense: MIT".to_string()), result);
}

#[test]
fn process_template_no_crate_license_without_license_append_license() {
    let result = run_template(TEMPLATE_NO_CRATE_LICENSE, None, true, false);
    assert_eq!(Err(RenderError::MissingLicense), result);
}

#[test]
fn process_template_no_crate_license_with_license() {
    let result = run_template(TEMPLATE_NO_CRATE_LICENSE, Some("MIT"), false, false);
    assert_eq!(Ok("# documentation\n\nLicense: MIT".to_string()), result);
}

#[test]
fn process_template_no_crate_license_without_license() {
    let result = run_template(TEMPLATE_NO_CRATE_LICENSE, None, false, false);
    assert_eq!(Err(RenderError::MissingLicense), result);
}

#[test]
fn process_template_crate_license_with_license_prepend_crate_append_license() {
    let result = run_template(TEMPLATE_CRATE_LICENSE, Some("MIT"), true, true);
    assert_eq!(Ok("# my_crate\n\n# documentation\n\nLicense: MIT".to_string()), result);
}

#[test]
fn process_template_crate_license_without_license_prepend_crate_append_license() {
    let result = run_template(TEMPLATE_CRATE_LICENSE, None, true, true);
    assert_eq!(Err(RenderError::MissingLicense), result);
}

#[test]
fn process_template_crate_license_with_license_prepend_crate() {
    let result = run_template(TEMPLATE_CRATE_LICENSE, Some("MIT"), true, false);
    assert_eq!(Ok("# my_crate\n\n# documentation\n\nLicense: MIT".to_string()), result);
}

#[test]
fn process_template_crate_license_without_license_prepend_crate() {
    let result = run_template(TEMPLATE_CRATE_LICENSE, None, true, false);
    assert_eq!(Err(RenderError::MissingLicense), result);
}

#[test]
fn process_template_crate_license_with_license_append_license() {
    let result = run_template(TEMPLATE_CRATE_LICENSE, Some("MIT"), false, true);
    assert_eq!(Ok("# my_crate\n\n# documentation\n\nLicense: MIT".to_string()), result);
}

#[test]
fn process_template_crate_license_without_license_append_license() {
    let result = run_template(TEMPLATE_CRATE_LICENSE, None, false, true);
    assert_eq!(Err(RenderError::MissingLicense), result);
}

#[test]
fn process_template_crate_license_with_license() {
    let result = run_template(TEMPLATE_CRATE_LICENSE, Some("MIT"), false, false);
    assert_eq!(Ok("# my_crate\n\n# documentation\n\nLicense: MIT".to_string()), result);
}

#[test]
fn process_template_crate_license_without_license() {
    let result = run_template(TEMPLATE_CRATE_LICENSE, None, false, false);
    assert_eq!(Err(RenderError::MissingLicense), result);
}

#[test]
fn process_template_missing_body_placeholder() {
    let result = run_template("# just a header", Some("MIT"), true, true);
    assert_eq!(Err(RenderError::MissingBodyPlaceholder), result);
}

#[test]
fn process_template_missing_body_placeholder_without_options() {
    let result = run_template("nothing to see here", None, false, false);
    assert_eq!(Err(RenderError::MissingBodyPlaceholder), result);
}

#[test]
fn process_template_license_error_precedes_missing_body() {
    let result = run_template("License: {{license}}", None, false, false);
    assert_eq!(Err(RenderError::MissingLicense), result);
}

#[test]
fn process_template_trims_trailing_newlines() {
    let result = run_template("{{readme}}\n\n\n", Some("MIT"), false, false);
    assert_eq!(Ok("# documentation".to_string()), result);
}

#[test]
fn process_template_unknown_placeholder_left_untouched() {
    let result = run_template("{{badges}}\n{{readme}}", Some("MIT"), false, false);
    assert_eq!(Ok("{{badges}}\n# documentation".to_string()), result);
}

#[test]
fn process_template_substitutes_every_crate_occurrence() {
    let result = run_template("{{crate}} and {{crate}}\n{{readme}}", Some("MIT"), true, false);
    assert_eq!(Ok("my_crate and my_crate\n# documentation".to_string()), result);
}

#[test]
fn process_template_substitutes_every_body_occurrence() {
    let result = run_template("{{readme}}|{{readme}}", None, false, false);
    assert_eq!(Ok("# documentation|# documentation".to_string()), result);
}

#[test]
fn render_error_messages() {
    assert_eq!("There is no license in Cargo.toml", RenderError::MissingLicense.message());
    assert_eq!(
        "Missing `{{readme}}` in template",
        RenderError::MissingBodyPlaceholder.message()
    );
}

#[test]
fn generate_readme_no_template_title_and_license() {
    let lines: Vec<String> = vec!["//! # documentation".to_string()];
    let result = generate_readme(&lines, None, crate_info(Some("MIT")), true, true, false);
    assert_eq!(Ok("# my_crate\n\n# documentation\n\nLicense: MIT".to_string()), result);
}

#[test]
fn generate_readme_no_template_missing_license() {
    let lines: Vec<String> = vec!["//! # documentation".to_string()];
    let result = generate_readme(&lines, None, crate_info(None), false, true, false);
    assert_eq!(Err(RenderError::MissingLicense), result);
}

#[test]
fn generate_readme_no_template_no_options() {
    let lines: Vec<String> = vec!["//! hello".to_string(), "//! world".to_string()];
    let result = generate_readme(&lines, None, crate_info(None), false, false, false);
    assert_eq!(Ok("hello\nworld".to_string()), result);
}

#[test]
fn generate_readme_with_template() {
    let lines: Vec<String> =
        vec!["//! first".to_string(), "//! # heading".to_string()];
    let template = "badges\n\n{{readme}}\n\nfooter\n";
    let result = generate_readme(&lines, Some(template), crate_info(None), true, false, true);
    assert_eq!(
        Ok("badges\n\n# my_crate\n\nfirst\n## heading\n\nfooter".to_string()),
        result
    );
}

#[test]
fn generate_readme_empty_source() {
    let lines: Vec<String> = Vec::new();
    let result = generate_readme(&lines, None, crate_info(None), false, false, true);
    assert_eq!(Ok("".to_string()), result);
}

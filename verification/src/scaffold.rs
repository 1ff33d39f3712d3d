//! The files of a new plugin project, as texts with the plugin's name in
//! them.

use vstd::prelude::*;
use crate::text::{push_str, string_of};

verus! {

/// The source file of a new plugin, with its name in the heading and in the text that the expansion puts out.
pub open spec fn main_source(name: Seq<char>) -> Seq<char> {
    "// Plugin: "@
        + name
        + "\n// Expand framework blocks into Clean Language code\n\n// The expand_block function is called by the compiler when it encounters\n// a block that matches this plugin's namespace.\n//\n"@
        + "// Parameters:\n//   block_name: The name of the block being expanded (e.g., \"route\", \"model\")\n//   attributes: The block attributes as a JSON string\n//   body: The body content of the block\n//\n// Returns:\n"@
        + "//   The expanded Clean Language code as a string\n\nexpand_block(block_name: string, attributes: string, body: string) -> string\n    // Example: Simply return the body unchanged\n    // In a real plugin, you would parse the attributes and body,\n    // then generate Clean Language code based on them.\n"@
        + "\n    // For now, wrap the body in a comment showing it was processed\n    result: string = \"// Expanded by "@
        + name
        + " plugin\\n\" + body\n    return result\n\n\n// The validate_block function is called to validate block syntax before expansion.\n//\n"@
        + "// Parameters:\n//   block_name: The name of the block being validated\n//   attributes: The block attributes as a JSON string\n//   body: The body content of the block\n//\n// Returns:\n"@
        + "//   true if the block is valid, false otherwise\n\nvalidate_block(block_name: string, attributes: string, body: string) -> boolean\n    // Basic validation - check that we have a valid block name\n    if block_name == \"\"\n        return false\n"@
        + "\n    return true\n"@
}

/// Generates the source file of a new plugin.
pub fn generate_main_cln(name: &str) -> (r: String)
    ensures
        r@ == main_source(name@),
{
    let mut out: Vec<char> = Vec::new();
    push_str(&mut out, "// Plugin: ");
    push_str(&mut out, name);
    push_str(&mut out, "\n// Expand framework blocks into Clean Language code\n\n// The expand_block function is called by the compiler when it encounters\n// a block that matches this plugin's namespace.\n//\n");
    push_str(&mut out, "// Parameters:\n//   block_name: The name of the block being expanded (e.g., \"route\", \"model\")\n//   attributes: The block attributes as a JSON string\n//   body: The body content of the block\n//\n// Returns:\n");
    push_str(&mut out, "//   The expanded Clean Language code as a string\n\nexpand_block(block_name: string, attributes: string, body: string) -> string\n    // Example: Simply return the body unchanged\n    // In a real plugin, you would parse the attributes and body,\n    // then generate Clean Language code based on them.\n");
    push_str(&mut out, "\n    // For now, wrap the body in a comment showing it was processed\n    result: string = \"// Expanded by ");
    push_str(&mut out, name);
    push_str(&mut out, " plugin\\n\" + body\n    return result\n\n\n// The validate_block function is called to validate block syntax before expansion.\n//\n");
    push_str(&mut out, "// Parameters:\n//   block_name: The name of the block being validated\n//   attributes: The block attributes as a JSON string\n//   body: The body content of the block\n//\n// Returns:\n");
    push_str(&mut out, "//   true if the block is valid, false otherwise\n\nvalidate_block(block_name: string, attributes: string, body: string) -> boolean\n    // Basic validation - check that we have a valid block name\n    if block_name == \"\"\n        return false\n");
    push_str(&mut out, "\n    return true\n");
    assert(out@ =~= main_source(name@));
    string_of(&out)
}

/// The test file of a new plugin, with its name in the heading.
pub open spec fn test_source(name: Seq<char>) -> Seq<char> {
    "// Test file for "@
        + name
        + " plugin\n\n// Test that the expand_block function works correctly\ntest_expand_basic()\n    block_name: string = \"example\"\n    attributes: string = \"{}\"\n"@
        + "    body: string = \"x: integer = 42\"\n\n    result: string = expand_block(block_name, attributes, body)\n\n    // Verify the result contains the original body\n    assert(contains(result, \"x: integer = 42\"))\n"@
        + "\n\n// Test that validation works correctly\ntest_validate_empty_name()\n    result: boolean = validate_block(\"\", \"{}\", \"body\")\n    assert(result == false)\n"@
        + "\n\ntest_validate_valid_block()\n    result: boolean = validate_block(\"route\", \"{}\", \"get /users\")\n    assert(result == true)\n"@
}

/// Generates the test file of a new plugin.
pub fn generate_test_cln(name: &str) -> (r: String)
    ensures
        r@ == test_source(name@),
{
    let mut out: Vec<char> = Vec::new();
    push_str(&mut out, "// Test file for ");
    push_str(&mut out, name);
    push_str(&mut out, " plugin\n\n// Test that the expand_block function works correctly\ntest_expand_basic()\n    block_name: string = \"example\"\n    attributes: string = \"{}\"\n");
    push_str(&mut out, "    body: string = \"x: integer = 42\"\n\n    result: string = expand_block(block_name, attributes, body)\n\n    // Verify the result contains the original body\n    assert(contains(result, \"x: integer = 42\"))\n");
    push_str(&mut out, "\n\n// Test that validation works correctly\ntest_validate_empty_name()\n    result: boolean = validate_block(\"\", \"{}\", \"body\")\n    assert(result == false)\n");
    push_str(&mut out, "\n\ntest_validate_valid_block()\n    result: boolean = validate_block(\"route\", \"{}\", \"get /users\")\n    assert(result == true)\n");
    assert(out@ =~= test_source(name@));
    string_of(&out)
}

/// The readme of a new plugin, with its name as the title, in the install command and in the import.
pub open spec fn readme_text(name: Seq<char>) -> Seq<char> {
    "# "@
        + name
        + "\n\nA Clean Language plugin.\n\n## Description\n\n"@
        + "This plugin extends Clean Language with additional functionality.\n\n## Installation\n\n```bash\ncleen plugin install "@
        + name
        + "\n```\n\n## Usage\n\nIn your Clean Language source files, use the plugin's blocks:\n"@
        + "\n```clean\nimport: "@
        + name
        + "\n\n// Use plugin-specific blocks here\n```\n\n## Development\n"@
        + "\n### Building\n\n```bash\ncleen plugin build\n```\n"@
        + "\n### Testing\n\n```bash\ncln test tests/test_expand.cln\n```\n"@
        + "\n### Publishing\n\n```bash\ncleen plugin publish\n```\n"@
        + "\n## License\n\nMIT\n"@
}

/// Generates the readme of a new plugin.
pub fn generate_readme(name: &str) -> (r: String)
    ensures
        r@ == readme_text(name@),
{
    let mut out: Vec<char> = Vec::new();
    push_str(&mut out, "# ");
    push_str(&mut out, name);
    push_str(&mut out, "\n\nA Clean Language plugin.\n\n## Description\n\n");
    push_str(&mut out, "This plugin extends Clean Language with additional functionality.\n\n## Installation\n\n```bash\ncleen plugin install ");
    push_str(&mut out, name);
    push_str(&mut out, "\n```\n\n## Usage\n\nIn your Clean Language source files, use the plugin's blocks:\n");
    push_str(&mut out, "\n```clean\nimport: ");
    push_str(&mut out, name);
    push_str(&mut out, "\n\n// Use plugin-specific blocks here\n```\n\n## Development\n");
    push_str(&mut out, "\n### Building\n\n```bash\ncleen plugin build\n```\n");
    push_str(&mut out, "\n### Testing\n\n```bash\ncln test tests/test_expand.cln\n```\n");
    push_str(&mut out, "\n### Publishing\n\n```bash\ncleen plugin publish\n```\n");
    push_str(&mut out, "\n## License\n\nMIT\n");
    assert(out@ =~= readme_text(name@));
    string_of(&out)
}

} // verus!

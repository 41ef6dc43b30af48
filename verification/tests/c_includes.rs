
#[test]
fn renames_a_quoted_include_and_keeps_the_quotes() {
    #[allow(non_snake_case)]
    let SRC: &str = "#include <stdio.h>\n#include \"old/lib.h\"\n\nint main(void) { return 0; }\n";
        let out = colab::lang_c::includes::rename("old/lib.h", "new/lib.h", SRC);
        assert!(out.contains("#include \"new/lib.h\""), "got: {out}");
        assert!(
            out.contains("#include <stdio.h>"),
            "other includes untouched"
        );
    }

#[test]
fn renames_a_system_include_and_keeps_the_brackets() {
    #[allow(non_snake_case)]
    let SRC: &str = "#include <stdio.h>\n#include \"old/lib.h\"\n\nint main(void) { return 0; }\n";
        let out = colab::lang_c::includes::rename("stdio.h", "stdlib.h", SRC);
        assert!(out.contains("#include <stdlib.h>"), "got: {out}");
    }

#[test]
fn a_bare_target_matches_either_delimiter_style() {
        // Same target text, both forms present, both rewritten.
        let src = "#include <x.h>\n#include \"x.h\"\n";
        let out = colab::lang_c::includes::rename("x.h", "y.h", src);
        assert_eq!(out, "#include <y.h>\n#include \"y.h\"\n");
    }

#[test]
fn rename_does_not_match_a_substring_of_a_longer_path() {
    #[allow(non_snake_case)]
    let SRC: &str = "#include <stdio.h>\n#include \"old/lib.h\"\n\nint main(void) { return 0; }\n";
        assert_eq!(colab::lang_c::includes::rename("lib.h", "WRONG", SRC), SRC);
    }

#[test]
fn includes_rename_is_idempotent() {
    #[allow(non_snake_case)]
    let SRC: &str = "#include <stdio.h>\n#include \"old/lib.h\"\n\nint main(void) { return 0; }\n";
        let once = colab::lang_c::includes::rename("old/lib.h", "new/lib.h", SRC);
        let twice = colab::lang_c::includes::rename("old/lib.h", "new/lib.h", &once);
        assert_eq!(once, twice);
    }

#[test]
fn deletes_the_whole_directive_line() {
    #[allow(non_snake_case)]
    let SRC: &str = "#include <stdio.h>\n#include \"old/lib.h\"\n\nint main(void) { return 0; }\n";
        let out = colab::lang_c::includes::delete("old/lib.h", SRC);
        assert!(!out.contains("old/lib.h"));
        assert!(out.contains("#include <stdio.h>"));
        assert!(out.contains("int main"));
    }

#[test]
fn includes_delete_is_idempotent() {
    #[allow(non_snake_case)]
    let SRC: &str = "#include <stdio.h>\n#include \"old/lib.h\"\n\nint main(void) { return 0; }\n";
        let once = colab::lang_c::includes::delete("old/lib.h", SRC);
        let twice = colab::lang_c::includes::delete("old/lib.h", &once);
        assert_eq!(once, twice);
    }

#[test]
fn ensure_adds_a_quoted_include_after_the_existing_ones() {
    #[allow(non_snake_case)]
    let SRC: &str = "#include <stdio.h>\n#include \"old/lib.h\"\n\nint main(void) { return 0; }\n";
        let out = colab::lang_c::includes::ensure("extra.h", SRC);
        assert!(out.contains("#include \"extra.h\""), "got: {out}");
        let last_existing = out.find("old/lib.h").unwrap();
        let added = out.find("extra.h").unwrap();
        assert!(
            last_existing < added,
            "should follow existing includes: {out}"
        );
    }

#[test]
fn ensure_honours_an_explicit_system_form() {
    #[allow(non_snake_case)]
    let SRC: &str = "#include <stdio.h>\n#include \"old/lib.h\"\n\nint main(void) { return 0; }\n";
        let out = colab::lang_c::includes::ensure("<stdlib.h>", SRC);
        assert!(out.contains("#include <stdlib.h>"), "got: {out}");
    }

#[test]
fn ensure_is_a_noop_when_already_present_in_either_form() {
    #[allow(non_snake_case)]
    let SRC: &str = "#include <stdio.h>\n#include \"old/lib.h\"\n\nint main(void) { return 0; }\n";
        assert_eq!(colab::lang_c::includes::ensure("stdio.h", SRC), SRC);
        assert_eq!(colab::lang_c::includes::ensure("<stdio.h>", SRC), SRC);
        assert_eq!(colab::lang_c::includes::ensure("old/lib.h", SRC), SRC);
    }

#[test]
fn ensure_prepends_when_there_are_no_includes() {
        let src = "int main(void) { return 0; }\n";
        let out = colab::lang_c::includes::ensure("<stdio.h>", src);
        assert!(out.starts_with("#include <stdio.h>\n"), "got: {out}");
    }

#[test]
fn includes_ensure_is_idempotent() {
    #[allow(non_snake_case)]
    let SRC: &str = "#include <stdio.h>\n#include \"old/lib.h\"\n\nint main(void) { return 0; }\n";
        let once = colab::lang_c::includes::ensure("extra.h", SRC);
        let twice = colab::lang_c::includes::ensure("extra.h", &once);
        assert_eq!(once, twice);
    }

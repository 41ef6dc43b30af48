
#[test]
fn renames_matching_package() {
        let src = "package com.old;\n\npublic class Hello {}\n";
        let out = colab::lang_java::packages::rename("com.old", "com.new", src);
        assert!(out.starts_with("package com.new;"), "got: {out}");
    }

#[test]
fn does_not_rename_mismatched_package() {
        let src = "package com.other;\n";
        assert_eq!(colab::lang_java::packages::rename("com.old", "com.new", src), src);
    }


#[test]
fn renames_the_package_clause() {
        let src = "package oldpkg\n\nfunc f() {}\n";
        let out = colab::lang_go::packages::rename("oldpkg", "newpkg", src);
        assert!(out.contains("package newpkg"), "got: {out}");
    }

#[test]
fn does_not_touch_a_matching_identifier_elsewhere() {
        // Only the package clause is in scope; the qualifier is not.
        let src = "package demo\n\nfunc f() { oldpkg.Run() }\n";
        assert_eq!(colab::lang_go::packages::rename("oldpkg", "newpkg", src), src);
    }

#[test]
fn packages_absent_target_returns_input_unchanged() {
        let src = "package other\n";
        assert_eq!(colab::lang_go::packages::rename("oldpkg", "newpkg", src), src);
    }

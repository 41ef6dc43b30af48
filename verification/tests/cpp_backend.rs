
#[test]
fn claims_cpp_sources_and_headers() {
        for ext in ["cpp", "cc", "cxx", "hpp", "hh", "h"] {
            assert!(colab::lang_cpp::is_cpp_file(&format!("a.{ext}")), "{ext}");
        }
        assert!(!colab::lang_cpp::is_cpp_file("a.rs"));
    }

use colab::backend::LanguageBackend;

#[test]
fn claims_c_sources_and_headers() {
        assert!(colab::lang_c::is_c_file("a.c"));
        assert!(colab::lang_c::is_c_file("a.h"));
        assert!(!colab::lang_c::is_c_file("a.rs"));
        assert!(!colab::lang_c::is_c_file("a"));
    }

#[test]
fn unsupported_action_names_the_valid_ones() {
        let err = colab::lang_c::CBackend
            .build_rule(
                "symbol",
                colab::backend::RuleSpec::Delete {
                    target: "x".into(),
                },
            )
            .unwrap_err();
        let msg = err.to_string();
        assert!(msg.contains("does not support the `delete` action"), "{msg}");
        assert!(msg.contains("replace"), "{msg}");
    }

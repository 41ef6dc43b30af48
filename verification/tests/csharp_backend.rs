
#[test]
fn claims_cs_sources() {
        assert!(colab::lang_csharp::is_csharp_file("a.cs"));
        assert!(colab::lang_csharp::is_csharp_file("a.csx"));
        assert!(!colab::lang_csharp::is_csharp_file("a.c"));
    }

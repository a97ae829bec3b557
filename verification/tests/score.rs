use token_matcher::score::{record_doc_freq, DocFreqReciprocal};
use vstd::hash_map::StringHashMap;

fn as_float(reciprocal: DocFreqReciprocal) -> f32 {
    1.0 / (reciprocal.doc_freq as f32 + 1.0)
}

#[test]
fn reciprocal_of_one_document_is_one_half() {
    let weight = DocFreqReciprocal::from_doc_freq(1).unwrap();
    assert_eq!(weight, DocFreqReciprocal { doc_freq: 1 });
    assert_eq!(as_float(weight), 0.5);
}

#[test]
fn reciprocal_of_two_documents_is_one_third() {
    let weight = DocFreqReciprocal::from_doc_freq(2).unwrap();
    assert_eq!(weight, DocFreqReciprocal { doc_freq: 2 });
    assert_eq!(as_float(weight), 1.0 / 3.0);
}

#[test]
fn reciprocal_of_no_document_is_undefined() {
    assert_eq!(DocFreqReciprocal::from_doc_freq(0), None);
}

#[test]
fn reciprocal_of_the_largest_frequency_is_defined() {
    assert_eq!(
        DocFreqReciprocal::from_doc_freq(u64::MAX),
        Some(DocFreqReciprocal { doc_freq: u64::MAX })
    );
}

#[test]
fn reciprocal_falls_as_the_frequency_rises() {
    let mut previous = as_float(DocFreqReciprocal::from_doc_freq(1).unwrap());
    for doc_freq in 2..2000u64 {
        let weight = DocFreqReciprocal::from_doc_freq(doc_freq).unwrap();
        assert_eq!(weight.doc_freq, doc_freq);
        let current = as_float(weight);
        assert!(current < previous);
        assert!(0.0 < current && current <= 0.5);
        previous = current;
    }
}

#[test]
fn record_doc_freq_remembers_the_weight_under_the_token() {
    let mut cache: StringHashMap<Option<DocFreqReciprocal>> = StringHashMap::new();
    assert_eq!(
        record_doc_freq(&mut cache, "seen", 4),
        Some(DocFreqReciprocal { doc_freq: 4 })
    );
    assert_eq!(record_doc_freq(&mut cache, "unseen", 0), None);
    assert_eq!(cache.len(), 2);
    assert_eq!(cache.get("seen"), Some(&Some(DocFreqReciprocal { doc_freq: 4 })));
    assert_eq!(cache.get("unseen"), Some(&None));
    assert_eq!(cache.get("other"), None);
    // a later answer takes the place of an earlier one
    assert_eq!(
        record_doc_freq(&mut cache, "seen", 5),
        Some(DocFreqReciprocal { doc_freq: 5 })
    );
    assert_eq!(cache.get("seen"), Some(&Some(DocFreqReciprocal { doc_freq: 5 })));
    assert_eq!(cache.len(), 2);
}

use ffnet::data::DataSet;

/// Builds the binary dataset format: 16-byte little-endian header
/// `[num_samples: u64][num_features: u64]`, the pixel words, then the raw
/// label bytes.
fn build_stream(num_samples: u64, num_features: u64, pixels: &[f32], labels: &[u8]) -> Vec<u8> {
    let mut bytes: Vec<u8> = Vec::new();
    bytes.extend_from_slice(&num_samples.to_le_bytes());
    bytes.extend_from_slice(&num_features.to_le_bytes());
    for p in pixels {
        bytes.extend_from_slice(&p.to_le_bytes());
    }
    bytes.extend_from_slice(labels);
    bytes
}

#[test]
fn parse_reads_header_pixels_and_labels() {
    let pixels: [f32; 6] = [0.0, 0.5, 1.0, -2.25, 3.75, 0.125];
    let labels: [u8; 2] = [7, 1];
    let bytes = build_stream(2, 3, &pixels, &labels);

    let d = DataSet::from_bytes(&bytes).expect("well-formed stream must parse");
    assert_eq!(d.num_samples, 2);
    assert_eq!(d.num_features, 3);
    assert_eq!(d.labels, vec![7u8, 1u8]);
    assert_eq!(d.images.len(), 6);
    for (k, p) in pixels.iter().enumerate() {
        assert_eq!(d.images[k], p.to_bits());
        assert_eq!(f32::from_bits(d.images[k]), *p);
    }
}

#[test]
fn parse_ignores_trailing_bytes() {
    let pixels: [f32; 2] = [1.0, 2.0];
    let labels: [u8; 2] = [0, 1];
    let mut bytes = build_stream(2, 1, &pixels, &labels);
    bytes.extend_from_slice(&[9, 9, 9]);

    let d = DataSet::from_bytes(&bytes).expect("trailing bytes are ignored");
    assert_eq!(d.num_samples, 2);
    assert_eq!(d.num_features, 1);
    assert_eq!(d.labels, vec![0u8, 1u8]);
}

#[test]
fn parse_rejects_short_streams() {
    // Shorter than the header.
    assert!(DataSet::from_bytes(&[0u8; 15]).is_none());

    // Header declares more pixels and labels than the stream holds.
    let bytes = build_stream(2, 3, &[0.0f32; 6], &[0, 1]);
    assert!(DataSet::from_bytes(&bytes[..bytes.len() - 1]).is_none());
    assert!(DataSet::from_bytes(&bytes[..20]).is_none());
}

#[test]
fn parse_rejects_counts_that_cannot_fit() {
    // A header declaring u64::MAX samples of one feature asks for more
    // pixel bytes than any address space holds.
    let mut bytes: Vec<u8> = Vec::new();
    bytes.extend_from_slice(&u64::MAX.to_le_bytes());
    bytes.extend_from_slice(&1u64.to_le_bytes());
    bytes.extend_from_slice(&[0u8; 64]);
    assert!(DataSet::from_bytes(&bytes).is_none());
}

#[test]
fn parse_accepts_empty_dataset() {
    let bytes = build_stream(0, 4, &[], &[]);
    let d = DataSet::from_bytes(&bytes).expect("an empty dataset is well-formed");
    assert_eq!(d.num_samples, 0);
    assert_eq!(d.num_features, 4);
    assert!(d.images.is_empty());
    assert!(d.labels.is_empty());
}

#[test]
fn get_image_returns_the_sample_row() {
    let images: Vec<u32> = vec![10, 11, 12, 20, 21, 22];
    let labels: Vec<u8> = vec![3, 4];
    let d = DataSet::new(images, labels, 3);
    assert_eq!(d.num_samples, 2);

    assert_eq!(d.get_image(0).unwrap(), &[10, 11, 12]);
    assert_eq!(d.get_image(1).unwrap(), &[20, 21, 22]);
    assert!(d.get_image(2).is_none());
}

#[test]
fn get_label_checks_the_index() {
    let d = DataSet::new(vec![1, 2], vec![5, 6], 1);
    assert_eq!(d.get_label(0), Some(5));
    assert_eq!(d.get_label(1), Some(6));
    assert_eq!(d.get_label(2), None);
}

#[test]
fn split_keeps_the_flat_layout() {
    let images: Vec<u32> = vec![10, 11, 20, 21, 30, 31];
    let labels: Vec<u8> = vec![1, 2, 3];
    let d = DataSet::new(images, labels, 2);

    let (train, test) = d.split_dataset(2);
    assert_eq!(train.num_samples, 2);
    assert_eq!(train.num_features, 2);
    assert_eq!(train.images, vec![10, 11, 20, 21]);
    assert_eq!(train.labels, vec![1, 2]);
    assert_eq!(test.num_samples, 1);
    assert_eq!(test.num_features, 2);
    assert_eq!(test.images, vec![30, 31]);
    assert_eq!(test.labels, vec![3]);
}

#[test]
fn split_at_the_ends() {
    let d = DataSet::new(vec![10, 20], vec![1, 2], 1);

    let (all_train, no_test) = d.split_dataset(2);
    assert_eq!(all_train.num_samples, 2);
    assert_eq!(no_test.num_samples, 0);

    let (no_train, all_test) = d.split_dataset(0);
    assert_eq!(no_train.num_samples, 0);
    assert_eq!(all_test.images, vec![10, 20]);
}

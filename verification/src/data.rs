//! The labeled image dataset: a flat, sample-major pixel array and a
//! parallel label array, plus the binary wire format it is loaded from.
//!
//! Pixels are single-precision values; this module stores each one as its
//! little-endian bit pattern (`u32`) and never computes with it, so every
//! statement here is about the layout alone: which words belong to which
//! sample, and how the byte stream maps onto them.

use vstd::prelude::*;
use vstd::bytes::{spec_u32_from_le_bytes, spec_u64_from_le_bytes, u32_from_le_bytes,
    u64_from_le_bytes};
use vstd::slice::{slice_subrange, slice_to_vec};

verus! {

/// A dataset: `num_samples` rows of `num_features` pixel words each,
/// stored flat and sample-major, with one class label per row.
pub struct DataSet {
    /// Pixel bit patterns, row-major: sample `k` owns the words
    /// `[k * num_features, (k + 1) * num_features)`.
    pub images: Vec<u32>,
    /// One class label per sample.
    pub labels: Vec<u8>,
    /// Number of samples (rows).
    pub num_samples: usize,
    /// Number of pixel words per sample.
    pub num_features: usize,
}

impl DataSet {
    /// The shape invariant: the flat pixel array holds exactly one row per
    /// label, each row `num_features` words long.
    pub open spec fn wf(self) -> bool {
        &&& self.images@.len() == self.num_samples * self.num_features
        &&& self.labels@.len() == self.num_samples
    }

    /// Builds a dataset from a flat pixel array and its labels.  A count
    /// mismatch between pixels and labels is a caller bug, so it is ruled
    /// out up front rather than detected later.
    pub fn new(images: Vec<u32>, labels: Vec<u8>, num_features: usize) -> (d: DataSet)
        requires
            num_features > 0,
            images@.len() == labels@.len() * num_features,
        ensures
            d.wf(),
            d.images@ == images@,
            d.labels@ == labels@,
            d.num_samples == labels@.len(),
            d.num_features == num_features,
    {
        let num_samples: usize = images.len() / num_features;
        proof {
            vstd::arithmetic::div_mod::lemma_div_multiples_vanish(
                labels@.len() as int,
                num_features as int,
            );
            assert(num_features as int * labels@.len() as int
                == labels@.len() as int * num_features as int) by (nonlinear_arith);
        }
        DataSet { images, labels, num_samples, num_features }
    }

    /// The pixel row of sample `index`, or `None` when the index is out of
    /// range.
    pub fn get_image(&self, index: usize) -> (r: Option<&[u32]>)
        requires
            self.wf(),
        ensures
            r is Some <==> index < self.num_samples,
            r matches Some(row) ==> row@ == self.images@.subrange(
                index * self.num_features as int,
                index * self.num_features as int + self.num_features as int,
            ),
    {
        if index < self.num_samples {
            let total = self.images.len();
            proof {
                lemma_row_in_bounds(
                    index as int,
                    self.num_samples as int,
                    self.num_features as int,
                );
            }
            let start: usize = index * self.num_features;
            let end: usize = start + self.num_features;
            Some(slice_subrange(self.images.as_slice(), start, end))
        } else {
            None
        }
    }

    /// Splits the dataset into a training prefix of `num_train_samples`
    /// samples and an evaluation suffix holding the rest, preserving the
    /// flat sample-major layout of both halves.
    pub fn split_dataset(&self, num_train_samples: usize) -> (r: (DataSet, DataSet))
        requires
            self.wf(),
            self.num_features > 0,
            num_train_samples <= self.num_samples,
        ensures
            r.0.wf(),
            r.1.wf(),
            r.0.num_features == self.num_features,
            r.1.num_features == self.num_features,
            r.0.num_samples == num_train_samples,
            r.1.num_samples == self.num_samples - num_train_samples,
            r.0.images@ == self.images@.subrange(
                0,
                num_train_samples * self.num_features as int,
            ),
            r.1.images@ == self.images@.subrange(
                num_train_samples * self.num_features as int,
                self.images@.len() as int,
            ),
            r.0.labels@ == self.labels@.subrange(0, num_train_samples as int),
            r.1.labels@ == self.labels@.subrange(
                num_train_samples as int,
                self.labels@.len() as int,
            ),
    {
        let total: usize = self.images.len();
        proof {
            lemma_split_point_in_bounds(
                num_train_samples as int,
                self.num_samples as int,
                self.num_features as int,
            );
        }
        let split_px: usize = num_train_samples * self.num_features;
        let train_images: Vec<u32> = slice_to_vec(slice_subrange(
            self.images.as_slice(),
            0,
            split_px,
        ));
        let test_images: Vec<u32> = slice_to_vec(slice_subrange(
            self.images.as_slice(),
            split_px,
            total,
        ));
        let train_labels: Vec<u8> = slice_to_vec(slice_subrange(
            self.labels.as_slice(),
            0,
            num_train_samples,
        ));
        let test_labels: Vec<u8> = slice_to_vec(slice_subrange(
            self.labels.as_slice(),
            num_train_samples,
            self.labels.len(),
        ));
        let train = DataSet::new(train_images, train_labels, self.num_features);
        let test = DataSet::new(test_images, test_labels, self.num_features);
        (train, test)
    }

    /// The label of sample `index`, or `None` when the index is out of
    /// range.
    pub fn get_label(&self, index: usize) -> (r: Option<u8>)
        ensures
            r is Some <==> index < self.labels@.len(),
            r matches Some(l) ==> l == self.labels@[index as int],
    {
        if index < self.labels.len() {
            Some(self.labels[index])
        } else {
            None
        }
    }
}

/// Sample count declared by a binary dataset header: the first eight bytes,
/// read as a little-endian word.
pub open spec fn spec_header_samples(bytes: Seq<u8>) -> u64
    recommends
        bytes.len() >= 16,
{
    spec_u64_from_le_bytes(bytes.subrange(0, 8))
}

/// Feature count declared by a binary dataset header: the second eight
/// bytes, read as a little-endian word.
pub open spec fn spec_header_features(bytes: Seq<u8>) -> u64
    recommends
        bytes.len() >= 16,
{
    spec_u64_from_le_bytes(bytes.subrange(8, 16))
}

/// When a byte stream parses as a dataset: it holds the 16-byte header,
/// the counts the header declares fit the machine, and the stream is long
/// enough for the pixel words and labels those counts call for.
pub open spec fn spec_parse_ok(bytes: Seq<u8>) -> bool {
    &&& bytes.len() >= 16
    &&& spec_header_samples(bytes) <= usize::MAX
    &&& spec_header_features(bytes) <= usize::MAX
    &&& spec_header_samples(bytes) * spec_header_features(bytes) <= usize::MAX
    &&& spec_header_samples(bytes) * spec_header_features(bytes) * 4 <= usize::MAX
    &&& 16 + spec_header_samples(bytes) * spec_header_features(bytes) * 4
        + spec_header_samples(bytes) <= bytes.len()
}

impl DataSet {
    /// Parses the binary dataset format: a 16-byte little-endian header
    /// `[num_samples: u64][num_features: u64]`, then
    /// `num_samples * num_features` little-endian 4-byte pixel words, then
    /// `num_samples` raw label bytes.  Trailing bytes are ignored.  Returns
    /// `None` exactly when the stream is too short for what its header
    /// declares, or the declared counts do not fit the machine.
    pub fn from_bytes(bytes: &[u8]) -> (r: Option<DataSet>)
        ensures
            r is Some <==> spec_parse_ok(bytes@),
            r matches Some(d) ==> {
                let ns = spec_header_samples(bytes@) as int;
                let nf = spec_header_features(bytes@) as int;
                &&& d.wf()
                &&& d.num_samples == ns
                &&& d.num_features == nf
                &&& forall|k: int| 0 <= k < ns * nf ==> d.images@[k]
                    == spec_u32_from_le_bytes(bytes@.subrange(16 + 4 * k, 16 + 4 * k + 4))
                &&& d.labels@ == bytes@.subrange(16 + ns * nf * 4, 16 + ns * nf * 4 + ns)
            },
    {
        if bytes.len() < 16 {
            return None;
        }
        let ns64: u64 = u64_from_le_bytes(slice_subrange(bytes, 0, 8));
        let nf64: u64 = u64_from_le_bytes(slice_subrange(bytes, 8, 16));
        if ns64 > usize::MAX as u64 || nf64 > usize::MAX as u64 {
            return None;
        }
        let ns: usize = ns64 as usize;
        let nf: usize = nf64 as usize;
        let words: usize = match ns.checked_mul(nf) {
            Some(w) => w,
            None => {
                return None;
            },
        };
        let image_bytes: usize = match words.checked_mul(4) {
            Some(w) => w,
            None => {
                return None;
            },
        };
        let labels_at: usize = match image_bytes.checked_add(16) {
            Some(w) => w,
            None => {
                return None;
            },
        };
        let needed: usize = match labels_at.checked_add(ns) {
            Some(w) => w,
            None => {
                return None;
            },
        };
        if bytes.len() < needed {
            return None;
        }

        let mut images: Vec<u32> = Vec::new();
        let mut k: usize = 0;
        while k < words
            invariant
                k <= words,
                labels_at == 16 + words * 4,
                labels_at + ns <= bytes@.len(),
                images@.len() == k,
                forall|i: int| 0 <= i < k ==> images@[i]
                    == spec_u32_from_le_bytes(bytes@.subrange(16 + 4 * i, 16 + 4 * i + 4)),
            decreases words - k,
        {
            let off: usize = 16 + 4 * k;
            let word: u32 = u32_from_le_bytes(slice_subrange(bytes, off, off + 4));
            images.push(word);
            k += 1;
        }
        let labels: Vec<u8> = slice_to_vec(slice_subrange(bytes, labels_at, labels_at + ns));
        Some(DataSet { images, labels, num_samples: ns, num_features: nf })
    }
}

/// A split point of `num_train` whole rows lies inside the flat array, and
/// the remaining rows account for exactly the remaining words.
proof fn lemma_split_point_in_bounds(num_train: int, num_samples: int, num_features: int)
    requires
        0 <= num_train <= num_samples,
        num_features >= 0,
    ensures
        0 <= num_train * num_features <= num_samples * num_features,
        (num_samples - num_train) * num_features
            == num_samples * num_features - num_train * num_features,
{
    assert(0 <= num_train * num_features <= num_samples * num_features) by (nonlinear_arith)
        requires 0 <= num_train <= num_samples, num_features >= 0,
    ;
    assert((num_samples - num_train) * num_features
        == num_samples * num_features - num_train * num_features) by (nonlinear_arith);
}

/// Within a dataset's shape, row `index` lies inside the flat array.
proof fn lemma_row_in_bounds(index: int, num_samples: int, num_features: int)
    requires
        0 <= index < num_samples,
        num_features >= 0,
    ensures
        index * num_features + num_features <= num_samples * num_features,
        0 <= index * num_features,
{
    assert((index + 1) * num_features <= num_samples * num_features) by (nonlinear_arith)
        requires 0 <= index, index + 1 <= num_samples, num_features >= 0,
    ;
    assert((index + 1) * num_features == index * num_features + num_features) by (nonlinear_arith);
    assert(0 <= index * num_features) by (nonlinear_arith)
        requires 0 <= index, num_features >= 0,
    ;
}

} // verus!

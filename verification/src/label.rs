//! The fixed-size label that identifies a camera.

use vstd::prelude::*;
use vstd::std_specs::cmp::PartialEqSpec;
use vstd::utf8::encode_utf8;

verus! {

/// The 100 bytes stored for `bytes`: `bytes` followed by zeros when it fits,
/// otherwise 100 copies of `overflow`.
pub open spec fn padded(bytes: Seq<u8>, overflow: u8) -> Seq<u8> {
    if bytes.len() > 100 {
        Seq::new(100, |_i: int| overflow)
    } else {
        bytes + Seq::new((100 - bytes.len()) as nat, |_i: int| 0u8)
    }
}

/// A camera label: 100 bytes, compared byte by byte.
#[derive(Clone, Copy, Eq, Hash, Debug)]
pub struct Label([u8; 100]);

impl View for Label {
    type V = Seq<u8>;

    closed spec fn view(&self) -> Seq<u8> {
        self.0@
    }
}

impl Label {
    /// The label whose bytes are `bytes`.
    pub closed spec fn with_bytes(bytes: Seq<u8>) -> Label {
        choose|l: Label| l@ == bytes
    }

    /// Every label has exactly 100 bytes.
    pub proof fn lemma_len(l: Label)
        ensures
            l@.len() == 100,
    {
    }

    /// Two labels are the same value exactly when their bytes agree.
    pub proof fn lemma_view_injective(a: Label, b: Label)
        ensures
            a@ == b@ <==> a == b,
    {
        if a@ == b@ {
            assert(a.0 =~= b.0);
        }
    }

    /// The array whose first `n` bytes are those of `bytes`, zeros after them.
    closed spec fn array_prefix(bytes: Seq<u8>, n: nat) -> [u8; 100]
        decreases n,
    {
        if n == 0 {
            vstd::array::spec_array_fill_for_copy_type::<u8, 100>(0u8)
        } else {
            vstd::array::spec_array_update(
                Label::array_prefix(bytes, (n - 1) as nat),
                n - 1,
                bytes[n - 1],
            )
        }
    }

    proof fn lemma_array_prefix(bytes: Seq<u8>, n: nat)
        requires
            n <= 100,
            n <= bytes.len(),
        ensures
            Label::array_prefix(bytes, n)@.len() == 100,
            forall|i: int| 0 <= i < n ==> #[trigger] Label::array_prefix(bytes, n)@[i] == bytes[i],
        decreases n,
    {
        broadcast use vstd::array::group_array_axioms;

        if n > 0 {
            Label::lemma_array_prefix(bytes, (n - 1) as nat);
        }
    }

    /// Every sequence of 100 bytes is the view of the label `with_bytes` gives.
    pub proof fn lemma_with_bytes_view(bytes: Seq<u8>)
        requires
            bytes.len() == 100,
        ensures
            Label::with_bytes(bytes)@ == bytes,
    {
        Label::lemma_array_prefix(bytes, 100);
        let l = Label(Label::array_prefix(bytes, 100));
        assert(l@ =~= bytes);
    }

    proof fn lemma_with_bytes(l: Label)
        ensures
            Label::with_bytes(l@) == l,
    {
        let c = Label::with_bytes(l@);
        assert(c@ == l@);
        Label::lemma_view_injective(c, l);
    }

    /// The bytes of the label.
    pub fn bytes(&self) -> (r: &[u8; 100])
        ensures
            r@ == self@,
    {
        &self.0
    }

    /// Label of a byte slice; 100 bytes of `2` when the slice is longer than 100.
    pub fn from_byte_slice(value: &[u8]) -> (l: Label)
        ensures
            l@ == padded(value@, 2),
    {
        let mut arr = [0u8; 100];
        if value.len() > 100 {
            let mut i: usize = 0;
            while i < 100
                invariant
                    i <= 100,
                    forall|j: int| 0 <= j < i ==> arr@[j] == 2u8,
                decreases 100 - i,
            {
                arr[i] = 2;
                i = i + 1;
            }
            assert(arr@ =~= padded(value@, 2));
        } else {
            copy(&mut arr, value);
            assert(arr@ =~= padded(value@, 2));
        }
        Label(arr)
    }

    /// Label of a string's UTF-8 bytes; 100 bytes of `1` when they are more than 100.
    pub fn from_text(value: &str) -> (l: Label)
        ensures
            l@ == padded(encode_utf8(value@), 1),
    {
        let mut arr = [0u8; 100];
        let bytes = value.as_bytes();
        copy(&mut arr, bytes);
        assert(arr@ =~= padded(encode_utf8(value@), 1));
        Label(arr)
    }
}

/// Writes `bytes` over the front of `arr` when it fits, leaving the rest of
/// `arr` as it was; otherwise fills `arr` with `1`.
pub fn copy(arr: &mut [u8; 100], bytes: &[u8])
    ensures
        bytes@.len() > 100 ==> final(arr)@ == Seq::new(100, |_i: int| 1u8),
        bytes@.len() <= 100 ==> final(arr)@ == bytes@ + old(arr)@.subrange(
            bytes@.len() as int,
            100,
        ),
{
    let n: usize = bytes.len();
    let mut i: usize = 0;
    if n > 100 {
        while i < 100
            invariant
                i <= 100,
                forall|j: int| 0 <= j < i ==> arr@[j] == 1u8,
            decreases 100 - i,
        {
            arr[i] = 1;
            i = i + 1;
        }
        assert(arr@ =~= Seq::new(100, |_i: int| 1u8));
    } else {
        while i < n
            invariant
                n == bytes@.len(),
                n <= 100,
                i <= n,
                forall|j: int| 0 <= j < i ==> arr@[j] == bytes@[j],
                forall|j: int| n <= j < 100 ==> arr@[j] == old(arr)@[j],
            decreases n - i,
        {
            arr[i] = bytes[i];
            i = i + 1;
        }
        assert(arr@ =~= bytes@ + old(arr)@.subrange(n as int, 100));
    }
}

impl PartialEq for Label {
    fn eq(&self, other: &Label) -> (r: bool) {
        let mut i: usize = 0;
        while i < 100
            invariant
                i <= 100,
                forall|j: int| 0 <= j < i ==> self@[j] == other@[j],
            decreases 100 - i,
        {
            if self.0[i] != other.0[i] {
                return false;
            }
            i = i + 1;
        }
        assert(self@ =~= other@);
        true
    }
}

impl vstd::std_specs::cmp::PartialEqSpecImpl for Label {
    open spec fn obeys_eq_spec() -> bool {
        true
    }

    open spec fn eq_spec(&self, other: &Label) -> bool {
        self@ == other@
    }
}

impl<'a> From<&'a [u8]> for Label {
    fn from(value: &'a [u8]) -> (l: Label)
        ensures
            l@ == padded(value@, 2),
    {
        let l = Label::from_byte_slice(value);
        proof {
            Label::lemma_with_bytes(l);
        }
        l
    }
}

impl<'a> vstd::std_specs::convert::FromSpecImpl<&'a [u8]> for Label {
    open spec fn obeys_from_spec() -> bool {
        true
    }

    open spec fn from_spec(v: &'a [u8]) -> Label {
        Label::with_bytes(padded(v@, 2))
    }
}

impl<'a> From<&'a str> for Label {
    fn from(value: &'a str) -> (l: Label)
        ensures
            l@ == padded(encode_utf8(value@), 1),
    {
        let l = Label::from_text(value);
        proof {
            Label::lemma_with_bytes(l);
        }
        l
    }
}

impl<'a> vstd::std_specs::convert::FromSpecImpl<&'a str> for Label {
    open spec fn obeys_from_spec() -> bool {
        true
    }

    open spec fn from_spec(v: &'a str) -> Label {
        Label::with_bytes(padded(encode_utf8(v@), 1))
    }
}

impl From<String> for Label {
    fn from(value: String) -> (l: Label)
        ensures
            l@ == padded(encode_utf8(value@), 1),
    {
        let l = Label::from_text(value.as_str());
        proof {
            Label::lemma_with_bytes(l);
        }
        l
    }
}

impl vstd::std_specs::convert::FromSpecImpl<String> for Label {
    open spec fn obeys_from_spec() -> bool {
        true
    }

    open spec fn from_spec(v: String) -> Label {
        Label::with_bytes(padded(encode_utf8(v@), 1))
    }
}

/// A text and its UTF-8 bytes give the same label whenever they fit in 100
/// bytes; longer ones differ (all `1` against all `2`).
pub proof fn law_text_and_byte_labels_agree(bytes: Seq<u8>)
    requires
        bytes.len() <= 100,
    ensures
        padded(bytes, 1) == padded(bytes, 2),
{
}

/// Labels tell apart byte strings of at most 100 bytes that hold no zero byte.
pub proof fn law_label_injective(a: Seq<u8>, b: Seq<u8>, overflow: u8)
    requires
        a.len() <= 100,
        b.len() <= 100,
        forall|i: int| 0 <= i < a.len() ==> a[i] != 0,
        forall|i: int| 0 <= i < b.len() ==> b[i] != 0,
        padded(a, overflow) == padded(b, overflow),
    ensures
        a == b,
{
    let pa = padded(a, overflow);
    let pb = padded(b, overflow);
    if a.len() < b.len() {
        assert(pa[a.len() as int] == 0u8);
        assert(pb[a.len() as int] == b[a.len() as int]);
    } else if b.len() < a.len() {
        assert(pb[b.len() as int] == 0u8);
        assert(pa[b.len() as int] == a[b.len() as int]);
    } else {
        assert forall|i: int| 0 <= i < a.len() implies a[i] == b[i] by {
            assert(pa[i] == a[i]);
            assert(pb[i] == b[i]);
        }
        assert(a =~= b);
    }
}

/// A label of at most 100 bytes holds those bytes, then zeros to 100.
pub proof fn law_short_label_bytes(bytes: Seq<u8>, overflow: u8)
    requires
        bytes.len() <= 100,
    ensures
        padded(bytes, overflow).len() == 100,
        padded(bytes, overflow).subrange(0, bytes.len() as int) == bytes,
        forall|i: int|
            bytes.len() <= i < 100 ==> #[trigger] padded(bytes, overflow)[i] == 0u8,
{
    assert(padded(bytes, overflow).subrange(0, bytes.len() as int) =~= bytes);
}

/// Every input longer than 100 bytes gives one fixed label: all `1` from a
/// text, all `2` from a byte slice, and the two differ.
pub proof fn law_over_long_labels(bytes: Seq<u8>)
    requires
        bytes.len() > 100,
    ensures
        padded(bytes, 1) == Seq::new(100, |_i: int| 1u8),
        padded(bytes, 2) == Seq::new(100, |_i: int| 2u8),
        padded(bytes, 1) != padded(bytes, 2),
{
    assert(padded(bytes, 1)[0] != padded(bytes, 2)[0]);
}

/// Texts of at most 100 UTF-8 bytes without a zero byte get the same label
/// only when they are the same text.
pub proof fn law_text_label_injective(a: Seq<char>, b: Seq<char>)
    requires
        encode_utf8(a).len() <= 100,
        encode_utf8(b).len() <= 100,
        forall|i: int| 0 <= i < encode_utf8(a).len() ==> encode_utf8(a)[i] != 0,
        forall|i: int| 0 <= i < encode_utf8(b).len() ==> encode_utf8(b)[i] != 0,
        padded(encode_utf8(a), 1) == padded(encode_utf8(b), 1),
    ensures
        a == b,
{
    law_label_injective(encode_utf8(a), encode_utf8(b), 1);
    vstd::utf8::encode_utf8_decode_utf8(a);
    vstd::utf8::encode_utf8_decode_utf8(b);
}

/// Two labels compare equal with `==` exactly when they are the same value,
/// that is, when all 100 of their bytes agree.
pub proof fn law_label_eq_compares_all_bytes(a: Label, b: Label)
    ensures
        a.eq_spec(&b) <==> a == b,
        a.eq_spec(&b) <==> forall|i: int| 0 <= i < 100 ==> #[trigger] a@[i] == b@[i],
{
    Label::lemma_view_injective(a, b);
    Label::lemma_len(a);
    Label::lemma_len(b);
    if forall|i: int| 0 <= i < 100 ==> #[trigger] a@[i] == b@[i] {
        assert(a@ =~= b@);
    }
}

} // verus!

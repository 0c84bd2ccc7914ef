//! Path arithmetic on `/`-separated paths, stated over their UTF-8 bytes.
use vstd::prelude::*;
use vstd::string::{StringExecFns, StringSliceAdditionalSpecFns};
use vstd::utf8::{encode_utf8, encode_utf8_valid_utf8, is_char_boundary_iff_not_is_continuation_byte};

verus! {

/// The path separator, `/`.
pub const SEPARATOR: u8 = 47;

/// The UTF-8 bytes of a path given as characters.
pub open spec fn bytes_of(s: Seq<char>) -> Seq<u8> {
    encode_utf8(s)
}

/// Index of the last separator in `p`, or -1 when there is none.
pub open spec fn last_separator(p: Seq<u8>) -> int
    decreases p.len(),
{
    if p.len() == 0 {
        -1
    } else if p.last() == SEPARATOR {
        p.len() - 1
    } else {
        last_separator(p.drop_last())
    }
}

/// The directory that holds `p`: everything before its last separator,
/// the root itself when that separator is the leading one, and the empty
/// path for a bare name. The root and the empty path have no parent.
pub open spec fn parent_of(p: Seq<u8>) -> Option<Seq<u8>> {
    let k = last_separator(p);
    if k < 0 {
        if p.len() == 0 {
            None
        } else {
            Some(Seq::empty())
        }
    } else if k == 0 {
        if p.len() == 1 {
            None
        } else {
            Some(p.subrange(0, 1))
        }
    } else {
        Some(p.subrange(0, k))
    }
}

/// `rel` taken relative to `base`: an absolute `rel` stands alone,
/// otherwise the two are joined by one separator.
pub open spec fn join_of(base: Seq<u8>, rel: Seq<u8>) -> Seq<u8> {
    if rel.len() > 0 && rel[0] == SEPARATOR {
        rel
    } else if base.len() == 0 {
        rel
    } else if base.last() == SEPARATOR {
        base + rel
    } else {
        base + seq![SEPARATOR] + rel
    }
}

proof fn lemma_encode_concat(a: Seq<char>, b: Seq<char>)
    ensures
        encode_utf8(a + b) == encode_utf8(a) + encode_utf8(b),
    decreases a.len(),
{
    if a.len() == 0 {
        assert(a + b =~= b);
        assert(encode_utf8(a) + encode_utf8(b) =~= encode_utf8(b));
    } else {
        assert((a + b).drop_first() =~= a.drop_first() + b);
        lemma_encode_concat(a.drop_first(), b);
        assert((a + b)[0] == a[0]);
        let e = vstd::utf8::encode_scalar(a[0] as u32);
        assert(e + (encode_utf8(a.drop_first()) + encode_utf8(b)) =~= (e + encode_utf8(
            a.drop_first(),
        )) + encode_utf8(b));
    }
}

proof fn lemma_separator_bytes(sep: &str)
    requires
        sep == "/",
    ensures
        bytes_of(sep@) == seq![SEPARATOR],
{
    reveal_strlit("/");
    assert(sep@ =~= seq!['/']);
    vstd::string::is_ascii_spec_bytes(sep);
    assert(sep.spec_bytes() =~= seq![SEPARATOR]);
}

/// The directory part of `path`, or `None` for the root and the empty path.
pub fn parent_dir(path: &str) -> (r: Option<String>)
    ensures
        match r {
            Some(d) => parent_of(bytes_of(path@)) == Some(bytes_of(d@)),
            None => parent_of(bytes_of(path@)) is None,
        },
{
    let bytes = path.as_bytes();
    let n = bytes.len();
    let mut i: usize = n;
    proof {
        assert(bytes@.subrange(0, n as int) =~= bytes@);
    }
    while i > 0 && bytes[i - 1] != SEPARATOR
        invariant
            i <= n,
            n == bytes@.len(),
            bytes@ == bytes_of(path@),
            last_separator(bytes@) == last_separator(bytes@.subrange(0, i as int)),
        decreases i,
    {
        proof {
            assert(bytes@.subrange(0, i as int).drop_last() =~= bytes@.subrange(0, i - 1));
        }
        i = i - 1;
    }
    proof {
        if i > 0 {
            assert(bytes@.subrange(0, i as int).last() == SEPARATOR);
        } else {
            assert(bytes@.subrange(0, 0) =~= Seq::<u8>::empty());
        }
        assert(bytes@.subrange(0, n as int) =~= bytes@);
    }
    if i == 0 {
        if n == 0 {
            None
        } else {
            Some(String::new())
        }
    } else {
        let k = i - 1;
        if k == 0 {
            if n == 1 {
                None
            } else {
                let root = "/";
                proof {
                    lemma_separator_bytes(root);
                    assert(bytes@.subrange(0, 1) =~= seq![SEPARATOR]);
                }
                Some(String::from_str(root))
            }
        } else {
            proof {
                encode_utf8_valid_utf8(path@);
                is_char_boundary_iff_not_is_continuation_byte(bytes@, k as int);
            }
            let (head, _) = path.split_at(k);
            Some(String::from_str(head))
        }
    }
}

/// `rel` resolved against `base`.
pub fn join_path(base: &str, rel: &str) -> (r: String)
    ensures
        bytes_of(r@) == join_of(bytes_of(base@), bytes_of(rel@)),
{
    let rb = rel.as_bytes();
    let bb = base.as_bytes();
    if rb.len() > 0 && rb[0] == SEPARATOR {
        String::from_str(rel)
    } else if bb.len() == 0 {
        String::from_str(rel)
    } else if bb[bb.len() - 1] == SEPARATOR {
        proof {
            lemma_encode_concat(base@, rel@);
        }
        String::from_str(base).concat(rel)
    } else {
        let sep = "/";
        proof {
            lemma_separator_bytes(sep);
            lemma_encode_concat(base@, sep@);
            lemma_encode_concat(base@ + sep@, rel@);
        }
        String::from_str(base).concat(sep).concat(rel)
    }
}

} // verus!

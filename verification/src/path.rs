//! Request paths: from the path below the `layer` route to a content
//! identifier, an operation and the final segment.

use vstd::prelude::*;
use vstd::slice::slice_subrange;
use vstd::utf8::{
    char_is_scalar, decode_utf8, encode_scalar, encode_utf8, encode_utf8_decode_utf8,
    encode_utf8_valid_utf8, has_width_1_encoding, last_continuation_byte, leading_byte_width_1,
    leading_byte_width_2, leading_byte_width_3, leading_byte_width_4,
    second_last_continuation_byte, third_last_continuation_byte, valid_utf8,
};

verus! {

/// The byte that separates the segments of a path.
pub const SLASH: u8 = 0x2f;

/// The position of the last separator in `path`, or -1 where it has none.
pub open spec fn last_slash(path: Seq<u8>) -> int
    decreases path.len(),
{
    if path.len() == 0 {
        -1
    } else if path.last() == SLASH {
        path.len() - 1
    } else {
        last_slash(path.drop_last())
    }
}

/// What stands before the last separator; nothing where there is none.
pub open spec fn parent(path: Seq<u8>) -> Seq<u8> {
    if last_slash(path) < 0 {
        Seq::empty()
    } else {
        path.take(last_slash(path))
    }
}

/// The final segment: what stands behind the last separator.
pub open spec fn file_name(path: Seq<u8>) -> Seq<u8> {
    path.skip(last_slash(path) + 1)
}

/// The last separator is a separator, and none follows it.
pub proof fn lemma_last_slash(path: Seq<u8>)
    ensures
        -1 <= last_slash(path) < path.len(),
        last_slash(path) >= 0 ==> path[last_slash(path)] == SLASH,
        forall|j: int| last_slash(path) < j < path.len() ==> path[j] != SLASH,
    decreases path.len(),
{
    if path.len() > 0 && path.last() != SLASH {
        let front = path.drop_last();
        lemma_last_slash(front);
        assert forall|j: int| last_slash(path) < j < path.len() implies path[j] != SLASH by {
            if j < front.len() {
                assert(front[j] == path[j]);
            }
        }
    }
}

/// Behind `front` and a separator, a segment without separators is the final
/// segment, and `front` is what stands before it.
pub proof fn lemma_split_joined(front: Seq<u8>, name: Seq<u8>)
    requires
        !name.contains(SLASH),
    ensures
        last_slash(front + seq![SLASH] + name) == front.len(),
        parent(front + seq![SLASH] + name) == front,
        file_name(front + seq![SLASH] + name) == name,
    decreases name.len(),
{
    let path = front + seq![SLASH] + name;
    if name.len() == 0 {
        assert(path.last() == SLASH);
    } else {
        let shorter = name.drop_last();
        assert(name.last() == name[name.len() - 1]);
        assert(name.contains(name.last()));
        assert forall|b: u8| shorter.contains(b) implies name.contains(b) by {
            let i = choose|i: int| 0 <= i < shorter.len() && shorter[i] == b;
            assert(name[i] == b);
        }
        lemma_split_joined(front, shorter);
        assert(path.drop_last() =~= front + seq![SLASH] + shorter);
        assert(path.last() == name.last());
    }
    assert(path.take(front.len() as int) =~= front);
    assert(path.skip(front.len() as int + 1) =~= name);
}

/// A malformed request path.
#[derive(Debug, Clone)]
pub enum PathError {
    NoLastComponent,
    NoBaseComponent,
    NoOp,
    NoCid,
    BadUTF8,
    UnknownOperation(String),
}

/// What a [`PathError`] holds.
pub enum PathErrorView {
    NoLastComponent,
    NoBaseComponent,
    NoOp,
    NoCid,
    BadUTF8,
    UnknownOperation(Seq<char>),
}

impl View for PathError {
    type V = PathErrorView;

    open spec fn view(&self) -> PathErrorView {
        match self {
            PathError::NoLastComponent => PathErrorView::NoLastComponent,
            PathError::NoBaseComponent => PathErrorView::NoBaseComponent,
            PathError::NoOp => PathErrorView::NoOp,
            PathError::NoCid => PathErrorView::NoCid,
            PathError::BadUTF8 => PathErrorView::BadUTF8,
            PathError::UnknownOperation(op) => PathErrorView::UnknownOperation(op@),
        }
    }
}

impl PathErrorView {
    /// The message of the error.
    pub open spec fn message(self) -> Seq<char> {
        match self {
            PathErrorView::NoLastComponent => "No last component"@,
            PathErrorView::NoBaseComponent => "No base component"@,
            PathErrorView::NoOp => "No operation"@,
            PathErrorView::NoCid => "No CID"@,
            PathErrorView::BadUTF8 => "Cannot convert to UTF-8"@,
            PathErrorView::UnknownOperation(op) => "Unknown operation "@ + op,
        }
    }
}

impl PathError {
    /// The message of the error, for display.
    pub fn to_string(&self) -> (r: String)
        ensures
            r@ == self@.message(),
    {
        match self {
            PathError::NoLastComponent => "No last component".to_owned(),
            PathError::NoBaseComponent => "No base component".to_owned(),
            PathError::NoOp => "No operation".to_owned(),
            PathError::NoCid => "No CID".to_owned(),
            PathError::BadUTF8 => "Cannot convert to UTF-8".to_owned(),
            PathError::UnknownOperation(op) => {
                let mut message = "Unknown operation ".to_owned();
                message.append(op.as_str());
                message
            },
        }
    }
}

/// A request below the `layer` route.
#[derive(Debug, Clone)]
pub enum LayerRequest {
    /// The image manifest of a content identifier, under some tag.
    Manifests { cid: String, tag: String },
    /// The blob with a given digest, of a content identifier.
    Blobs { cid: String, digest: String },
}

/// What a [`LayerRequest`] holds.
pub enum LayerRequestView {
    Manifests { cid: Seq<char>, tag: Seq<char> },
    Blobs { cid: Seq<char>, digest: Seq<char> },
}

impl View for LayerRequest {
    type V = LayerRequestView;

    open spec fn view(&self) -> LayerRequestView {
        match self {
            LayerRequest::Manifests { cid, tag } => LayerRequestView::Manifests {
                cid: cid@,
                tag: tag@,
            },
            LayerRequest::Blobs { cid, digest } => LayerRequestView::Blobs {
                cid: cid@,
                digest: digest@,
            },
        }
    }
}

impl LayerRequestView {
    /// The content identifier that the request names.
    pub open spec fn cid(self) -> Seq<char> {
        match self {
            LayerRequestView::Manifests { cid, .. } => cid,
            LayerRequestView::Blobs { cid, .. } => cid,
        }
    }
}

/// The request that a content identifier, an operation and a final segment
/// make: a request for a manifest or for a blob, as the operation names it.
pub open spec fn request_for(cid: Seq<char>, op: Seq<char>, last: Seq<char>) -> Result<
    LayerRequestView,
    PathErrorView,
> {
    if op == "manifests"@ {
        Ok(LayerRequestView::Manifests { cid, tag: last })
    } else if op == "blobs"@ {
        Ok(LayerRequestView::Blobs { cid, digest: last })
    } else {
        Err(PathErrorView::UnknownOperation(op))
    }
}

/// The request that three parts of a path make, all three in UTF-8.
pub open spec fn request_of(cid: Seq<u8>, op: Seq<u8>, last: Seq<u8>) -> Result<
    LayerRequestView,
    PathErrorView,
> {
    request_for(decode_utf8(cid), decode_utf8(op), decode_utf8(last))
}

/// What a path below the `layer` route asks for.
///
/// The operation is the segment before the last one, the content identifier
/// is everything before the operation. Operation, final segment and content
/// identifier are examined in this order; each has to be there and to be
/// UTF-8.
pub open spec fn parse_path(rest: Seq<u8>) -> Result<LayerRequestView, PathErrorView> {
    let base = parent(rest);
    let op = file_name(base);
    let last = file_name(rest);
    let cid = parent(base);
    if rest.len() == 0 {
        Err(PathErrorView::NoBaseComponent)
    } else if op.len() == 0 {
        Err(PathErrorView::NoOp)
    } else if !valid_utf8(op) {
        Err(PathErrorView::BadUTF8)
    } else if last.len() == 0 {
        Err(PathErrorView::NoLastComponent)
    } else if !valid_utf8(last) {
        Err(PathErrorView::BadUTF8)
    } else if cid.len() == 0 {
        Err(PathErrorView::NoCid)
    } else if !valid_utf8(cid) {
        Err(PathErrorView::BadUTF8)
    } else {
        request_of(cid, op, last)
    }
}

/// A content identifier, an operation and a final segment, joined by
/// separators, are read back as they were joined: the content identifier may
/// itself hold separators, the other two may not.
pub proof fn lemma_parse_path_joined(cid: Seq<u8>, op: Seq<u8>, last: Seq<u8>)
    requires
        cid.len() > 0,
        op.len() > 0,
        last.len() > 0,
        !op.contains(SLASH),
        !last.contains(SLASH),
        valid_utf8(cid),
        valid_utf8(op),
        valid_utf8(last),
    ensures
        parse_path(cid + seq![SLASH] + op + seq![SLASH] + last) == request_of(cid, op, last),
{
    let base = cid + seq![SLASH] + op;
    lemma_split_joined(base, last);
    lemma_split_joined(cid, op);
}

/// A scalar below 128 is encoded as itself.
proof fn lemma_narrow_scalar(s: u32)
    by (bit_vector)
    requires
        has_width_1_encoding(s),
    ensures
        leading_byte_width_1(s) == s,
{
}

/// Every byte of an encoding of more than one byte is 128 or more.
proof fn lemma_wide_scalar(s: u32)
    by (bit_vector)
    ensures
        leading_byte_width_2(s) >= 0x80,
        leading_byte_width_3(s) >= 0x80,
        leading_byte_width_4(s) >= 0x80,
        last_continuation_byte(s) >= 0x80,
        second_last_continuation_byte(s) >= 0x80,
        third_last_continuation_byte(s) >= 0x80,
{
}

/// The encoding of a character holds the separator byte only where the
/// character is the separator, and it is never empty.
proof fn lemma_encode_scalar_slash(c: char)
    ensures
        encode_scalar(c as u32).contains(SLASH) <==> c == '/',
        encode_scalar(c as u32).len() > 0,
{
    let s = c as u32;
    let bytes = encode_scalar(s);
    char_is_scalar(c);
    lemma_wide_scalar(s);
    if has_width_1_encoding(s) {
        lemma_narrow_scalar(s);
        assert(bytes[0] == s);
    }
    if bytes.contains(SLASH) {
        let i = choose|i: int| 0 <= i < bytes.len() && bytes[i] == SLASH;
        assert(bytes[i] == SLASH);
        assert(has_width_1_encoding(s));
    }
}

/// The UTF-8 encoding of a text holds the separator byte only where the text
/// holds the separator, and it is empty only where the text is.
proof fn lemma_encode_utf8_slash(chars: Seq<char>)
    ensures
        encode_utf8(chars).contains(SLASH) <==> chars.contains('/'),
        chars.len() > 0 ==> encode_utf8(chars).len() > 0,
    decreases chars.len(),
{
    if chars.len() > 0 {
        let first = encode_scalar(chars[0] as u32);
        let rest = chars.drop_first();
        let tail = encode_utf8(rest);
        let bytes = encode_utf8(chars);
        lemma_encode_scalar_slash(chars[0]);
        lemma_encode_utf8_slash(rest);
        assert(bytes == first + tail);
        if bytes.contains(SLASH) {
            let i = choose|i: int| 0 <= i < bytes.len() && bytes[i] == SLASH;
            if i < first.len() {
                assert(first[i] == SLASH);
                assert(chars[0] == '/');
            } else {
                assert(tail[i - first.len()] == SLASH);
                let j = choose|j: int| 0 <= j < rest.len() && rest[j] == '/';
                assert(chars[j + 1] == '/');
            }
        }
        if chars.contains('/') {
            let j = choose|j: int| 0 <= j < chars.len() && chars[j] == '/';
            if j == 0 {
                let i = choose|i: int| 0 <= i < first.len() && first[i] == SLASH;
                assert(bytes[i] == SLASH);
            } else {
                assert(rest[j - 1] == '/');
                let i = choose|i: int| 0 <= i < tail.len() && tail[i] == SLASH;
                assert(bytes[first.len() + i] == SLASH);
            }
        }
    }
}

/// The separator is encoded as the separator byte.
proof fn lemma_encode_separator()
    ensures
        encode_utf8(seq!['/']) == seq![SLASH],
{
    let slash = seq!['/'];
    lemma_narrow_scalar('/' as u32);
    assert(encode_scalar('/' as u32) =~= seq![SLASH]);
    assert(encode_utf8(slash.drop_first()) =~= Seq::<u8>::empty());
    assert(encode_utf8(slash) == encode_scalar(slash[0] as u32) + encode_utf8(slash.drop_first()));
    assert(encode_utf8(slash) =~= seq![SLASH]);
}

/// The UTF-8 encoding of two texts in a row is their encodings in a row.
proof fn lemma_encode_utf8_concat(a: Seq<char>, b: Seq<char>)
    ensures
        encode_utf8(a + b) == encode_utf8(a) + encode_utf8(b),
    decreases a.len(),
{
    if a.len() == 0 {
        assert(a + b =~= b);
        assert(encode_utf8(a) + encode_utf8(b) =~= encode_utf8(b));
    } else {
        lemma_encode_utf8_concat(a.drop_first(), b);
        assert((a + b).drop_first() =~= a.drop_first() + b);
        assert((a + b)[0] == a[0]);
        assert(encode_utf8(a + b) =~= encode_utf8(a) + encode_utf8(b));
    }
}

/// A content identifier, an operation and a final segment, written with a
/// separator between each two and encoded as UTF-8, are read back as they
/// were written: the content identifier may itself hold separators, the
/// other two may not, and none of the three may be empty.
pub proof fn lemma_parse_path_text(cid: Seq<char>, op: Seq<char>, last: Seq<char>)
    requires
        cid.len() > 0,
        op.len() > 0,
        last.len() > 0,
        !op.contains('/'),
        !last.contains('/'),
    ensures
        parse_path(encode_utf8(cid + seq!['/'] + op + seq!['/'] + last)) == request_for(
            cid,
            op,
            last,
        ),
{
    let slash = seq!['/'];
    lemma_encode_utf8_concat(cid + slash + op + slash, last);
    lemma_encode_utf8_concat(cid + slash + op, slash);
    lemma_encode_utf8_concat(cid + slash, op);
    lemma_encode_utf8_concat(cid, slash);
    lemma_encode_separator();
    lemma_encode_utf8_slash(cid);
    lemma_encode_utf8_slash(op);
    lemma_encode_utf8_slash(last);
    encode_utf8_valid_utf8(cid);
    encode_utf8_valid_utf8(op);
    encode_utf8_valid_utf8(last);
    encode_utf8_decode_utf8(cid);
    encode_utf8_decode_utf8(op);
    encode_utf8_decode_utf8(last);
    lemma_parse_path_joined(encode_utf8(cid), encode_utf8(op), encode_utf8(last));
}

/// Whatever is read from a path without error was joined in it: the path is
/// the content identifier, the operation and the final segment, none of them
/// empty, with a separator between each two.
pub proof fn lemma_parse_path_ok(rest: Seq<u8>)
    requires
        parse_path(rest) is Ok,
    ensures
        rest == parent(parent(rest)) + seq![SLASH] + file_name(parent(rest)) + seq![SLASH]
            + file_name(rest),
        parent(parent(rest)).len() > 0,
        file_name(parent(rest)).len() > 0,
        file_name(rest).len() > 0,
        !file_name(parent(rest)).contains(SLASH),
        !file_name(rest).contains(SLASH),
        parse_path(rest) == request_of(
            parent(parent(rest)),
            file_name(parent(rest)),
            file_name(rest),
        ),
{
    let base = parent(rest);
    lemma_last_slash(rest);
    lemma_last_slash(base);
    assert(last_slash(base) >= 0);
    assert(last_slash(rest) >= 0) by {
        if last_slash(rest) < 0 {
            assert(base.len() == 0);
        }
    }
    assert(base =~= parent(base) + seq![SLASH] + file_name(base));
    assert(rest =~= base + seq![SLASH] + file_name(rest));
}

/// A path that ends in a separator has no final segment, and a path with
/// fewer than two separators has no content identifier: both are refused.
pub proof fn lemma_parse_path_boundary(rest: Seq<u8>)
    ensures
        rest.len() > 0 && rest.last() == SLASH ==> parse_path(rest) is Err,
        last_slash(parent(rest)) < 0 ==> parse_path(rest) is Err,
{
    lemma_last_slash(rest);
    lemma_last_slash(parent(rest));
    if rest.len() > 0 && rest.last() == SLASH {
        assert(file_name(rest).len() == 0);
    }
}

/// Written as text and encoded as UTF-8, a path is refused where it ends in a
/// separator, where it holds no separator, and where it holds a single one:
/// it then lacks the final segment, the operation or the content identifier.
pub proof fn lemma_parse_path_text_boundary(front: Seq<char>, name: Seq<char>)
    requires
        !name.contains('/'),
    ensures
        parse_path(encode_utf8(front + seq!['/'])) is Err,
        parse_path(encode_utf8(name)) is Err,
        !front.contains('/') ==> parse_path(encode_utf8(front + seq!['/'] + name)) is Err,
{
    let slash = seq!['/'];
    lemma_encode_separator();
    lemma_encode_utf8_concat(front, slash);
    lemma_encode_utf8_concat(front + slash, name);
    lemma_encode_utf8_slash(front);
    lemma_encode_utf8_slash(name);
    let ended = encode_utf8(front + slash);
    assert(ended.last() == SLASH);
    lemma_parse_path_boundary(ended);
    lemma_last_slash(encode_utf8(name));
    lemma_parse_path_boundary(encode_utf8(name));
    if !front.contains('/') {
        let joined = encode_utf8(front + slash + name);
        lemma_split_joined(encode_utf8(front), encode_utf8(name));
        lemma_last_slash(encode_utf8(front));
        lemma_parse_path_boundary(joined);
    }
}

/// `core::str::from_utf8`: the string that the bytes encode, where they are
/// well-formed UTF-8, and nothing where they are not.
#[verifier::external_body]
fn utf8_str(bytes: &[u8]) -> (r: Option<&str>)
    ensures
        r is Some <==> valid_utf8(bytes@),
        r matches Some(s) ==> s@ == decode_utf8(bytes@),
{
    core::str::from_utf8(bytes).ok()
}

/// Splits a path at its last separator.
fn split_last(path: &[u8]) -> (r: (&[u8], &[u8]))
    ensures
        r.0@ == parent(path@),
        r.1@ == file_name(path@),
{
    let mut i: usize = path.len();
    assert(path@.take(i as int) =~= path@);
    while i > 0
        invariant
            i <= path@.len(),
            last_slash(path@) == last_slash(path@.take(i as int)),
        decreases i,
    {
        let ghost front = path@.take(i as int);
        if path[i - 1] == SLASH {
            assert(front.last() == SLASH);
            let before = slice_subrange(path, 0, i - 1);
            let after = slice_subrange(path, i, path.len());
            assert(before@ =~= parent(path@));
            assert(after@ =~= file_name(path@));
            return (before, after);
        }
        assert(front.drop_last() =~= path@.take(i - 1));
        i -= 1;
    }
    let before = slice_subrange(path, 0, 0);
    assert(before@ =~= parent(path@));
    assert(path@ =~= file_name(path@));
    (before, path)
}

impl LayerRequest {
    /// The content identifier that the request names.
    pub fn cid(&self) -> (r: &String)
        ensures
            r@ == self@.cid(),
    {
        match self {
            LayerRequest::Manifests { cid, .. } => cid,
            LayerRequest::Blobs { cid, .. } => cid,
        }
    }

    /// Reads the path below the `layer` route.
    pub fn parse(rest: &[u8]) -> (r: Result<LayerRequest, PathError>)
        ensures
            match r {
                Ok(request) => parse_path(rest@) == Ok::<LayerRequestView, PathErrorView>(
                    request@,
                ),
                Err(e) => parse_path(rest@) == Err::<LayerRequestView, PathErrorView>(e@),
            },
    {
        if rest.len() == 0 {
            return Err(PathError::NoBaseComponent);
        }
        let (base, last) = split_last(rest);
        let (cid, op) = split_last(base);
        if op.len() == 0 {
            return Err(PathError::NoOp);
        }
        let op = match utf8_str(op) {
            Some(op) => op,
            None => {
                return Err(PathError::BadUTF8);
            },
        };
        if last.len() == 0 {
            return Err(PathError::NoLastComponent);
        }
        let last = match utf8_str(last) {
            Some(last) => last,
            None => {
                return Err(PathError::BadUTF8);
            },
        };
        if cid.len() == 0 {
            return Err(PathError::NoCid);
        }
        let cid = match utf8_str(cid) {
            Some(cid) => cid,
            None => {
                return Err(PathError::BadUTF8);
            },
        };
        let op = op.to_owned();
        if op == "manifests".to_owned() {
            Ok(LayerRequest::Manifests { cid: cid.to_owned(), tag: last.to_owned() })
        } else if op == "blobs".to_owned() {
            Ok(LayerRequest::Blobs { cid: cid.to_owned(), digest: last.to_owned() })
        } else {
            Err(PathError::UnknownOperation(op))
        }
    }
}

} // verus!

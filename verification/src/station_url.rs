use vstd::prelude::*;

use crate::bytes::{le16_val, le32_val, u16_bytes, u32_bytes};
use crate::constants::{STATION_URL_FLAG_BEHIND_NAT, STATION_URL_FLAG_PUBLIC, StationUrlType};
use crate::error::NexError;
use crate::io::{ByteStreamIn, ByteStreamOut};
use vstd::string::StringSliceAdditionalSpecFns;
use vstd::utf8::{encode_utf8, is_ascii_chars, is_ascii_chars_encode_utf8};

verus! {

/// Whether one character sequence opens another.
pub open spec fn chars_prefix(s: Seq<char>, p: Seq<char>) -> bool {
    p.len() <= s.len() && s.take(p.len() as int) == p
}

/// The characters that a byte sequence spells, byte for byte.
pub open spec fn chars_of_bytes(b: Seq<u8>) -> Seq<char> {
    b.map_values(|x: u8| x as char)
}

/// The scheme a station URL text names, decided by its leading characters.
/// Empty texts and texts over 1024 bytes are left unclassified.
pub open spec fn scheme_of(chars: Seq<char>) -> StationUrlType {
    if encode_utf8(chars).len() == 0 || encode_utf8(chars).len() > 1024 {
        StationUrlType::Unknown
    } else if chars_prefix(chars, "prudps:/"@) {
        StationUrlType::Prudps
    } else if chars_prefix(chars, "prudp:/"@) {
        StationUrlType::Prudp
    } else if chars_prefix(chars, "udp:/"@) {
        StationUrlType::Udp
    } else {
        StationUrlType::Unknown
    }
}

/// The canonical text of a scheme.
pub open spec fn scheme_text(t: StationUrlType) -> Seq<char> {
    match t {
        StationUrlType::Prudp => "prudp:/"@,
        StationUrlType::Prudps => "prudps:/"@,
        StationUrlType::Udp => "udp:/"@,
        StationUrlType::Unknown => ""@,
    }
}

/// The canonical scheme texts classify back to their own schemes, except
/// the empty text of an unknown scheme, which stays unclassified.
pub proof fn lemma_scheme_text_round_trip(t: StationUrlType)
    ensures
        !(t is Unknown) ==> scheme_of(scheme_text(t)) == t,
        t is Unknown ==> scheme_of(scheme_text(t)) is Unknown,
{
    reveal_strlit("prudps:/");
    reveal_strlit("prudp:/");
    reveal_strlit("udp:/");
    reveal_strlit("");
    lemma_scheme_literals_ascii();
    is_ascii_chars_encode_utf8("prudps:/"@);
    is_ascii_chars_encode_utf8("prudp:/"@);
    is_ascii_chars_encode_utf8("udp:/"@);
    is_ascii_chars_encode_utf8(""@);
    match t {
        StationUrlType::Prudps => {
            assert(("prudps:/"@).take(8) =~= "prudps:/"@);
        },
        StationUrlType::Prudp => {
            assert(("prudp:/"@).take(7) =~= "prudp:/"@);
            assert(!chars_prefix("prudp:/"@, "prudps:/"@));
        },
        StationUrlType::Udp => {
            assert(("udp:/"@).take(5) =~= "udp:/"@);
            assert(!chars_prefix("udp:/"@, "prudps:/"@));
            assert(!chars_prefix("udp:/"@, "prudp:/"@));
        },
        StationUrlType::Unknown => {},
    }
}

/// The three scheme texts hold ASCII characters only.
proof fn lemma_scheme_literals_ascii()
    ensures
        is_ascii_chars("prudps:/"@),
        is_ascii_chars("prudp:/"@),
        is_ascii_chars("udp:/"@),
        is_ascii_chars(""@),
{
    reveal_strlit("prudps:/");
    reveal_strlit("prudp:/");
    reveal_strlit("udp:/");
    reveal_strlit("");
    assert forall|i: int| 0 <= i < ("prudps:/"@).len() implies '\u{0}'
        <= #[trigger] ("prudps:/"@)[i] <= '\u{7f}' by {}
    assert forall|i: int| 0 <= i < ("prudp:/"@).len() implies '\u{0}'
        <= #[trigger] ("prudp:/"@)[i] <= '\u{7f}' by {}
    assert forall|i: int| 0 <= i < ("udp:/"@).len() implies '\u{0}'
        <= #[trigger] ("udp:/"@)[i] <= '\u{7f}' by {}
}

/// The width of a string length prefix under the given settings choice.
pub open spec fn length_prefix_width(wide: bool) -> int {
    if wide {
        4
    } else {
        2
    }
}

/// The length a string prefix at `pos` declares.
pub open spec fn declared_string_len(b: Seq<u8>, pos: int, wide: bool) -> int {
    if wide {
        le32_val(b.subrange(pos, pos + 4))
    } else {
        le16_val(b.subrange(pos, pos + 2))
    }
}

/// Whether the buffer holds a whole length-prefixed string at `pos`: the
/// prefix itself, and as many bytes as it declares.
pub open spec fn whole_string_present(b: Seq<u8>, pos: int, wide: bool) -> bool {
    &&& b.len() - pos >= length_prefix_width(wide)
    &&& declared_string_len(b, pos, wide) <= b.len() - pos - length_prefix_width(wide)
}

/// The declared bytes of the length-prefixed string at `pos`.
pub open spec fn string_bytes_at(b: Seq<u8>, pos: int, wide: bool) -> Seq<u8> {
    b.subrange(
        pos + length_prefix_width(wide),
        pos + length_prefix_width(wide) + declared_string_len(b, pos, wide),
    )
}

/// The string bytes with the trailing NUL, when one is there, taken off:
/// the wire counts the NUL in the length, the text does not carry it.
pub open spec fn strip_trailing_nul(b: Seq<u8>) -> Seq<u8> {
    if b.len() > 0 && b.last() == 0 {
        b.drop_last()
    } else {
        b
    }
}

/// A station URL: the textual description of a reachable endpoint, with
/// its parsed scheme and its flag bits.
#[derive(Debug, Clone)]
pub struct StationUrl {
    url_type: StationUrlType,
    url: String,
    flags: u8,
}

impl StationUrl {
    /// The parsed scheme.
    pub closed spec fn url_type_spec(&self) -> StationUrlType {
        self.url_type
    }

    /// The URL text.
    pub closed spec fn url_chars(&self) -> Seq<char> {
        self.url@
    }

    /// The flag bits.
    pub closed spec fn flags_spec(&self) -> u8 {
        self.flags
    }

    /// Wraps a URL text, classifying its scheme.
    pub fn new(url: String) -> (r: Self)
        ensures
            r.url_chars() == url@,
            r.url_type_spec() == scheme_of(url@),
            r.flags_spec() == 0,
    {
        let mut s = Self { url_type: StationUrlType::Unknown, url, flags: 0 };
        s.parse();
        s
    }

    /// Reclassifies the scheme from the stored text.
    pub fn parse(&mut self)
        ensures
            final(self).url_chars() == old(self).url_chars(),
            final(self).flags_spec() == old(self).flags_spec(),
            final(self).url_type_spec() == scheme_of(old(self).url_chars()),
    {
        let s = self.url.as_str();
        let byte_len = s.as_bytes().len();
        if byte_len == 0 || byte_len > 1024 {
            self.url_type = StationUrlType::Unknown;
            return ;
        }
        let n = s.unicode_len();
        proof {
            reveal_strlit("prudps:/");
            reveal_strlit("prudp:/");
            reveal_strlit("udp:/");
        }
        if n >= 8 && s.get_char(0) == 'p' && s.get_char(1) == 'r' && s.get_char(2) == 'u'
            && s.get_char(3) == 'd' && s.get_char(4) == 'p' && s.get_char(5) == 's'
            && s.get_char(6) == ':' && s.get_char(7) == '/' {
            proof {
                assert(s@.take(8) =~= "prudps:/"@);
            }
            self.url_type = StationUrlType::Prudps;
        } else if n >= 7 && s.get_char(0) == 'p' && s.get_char(1) == 'r' && s.get_char(2) == 'u'
            && s.get_char(3) == 'd' && s.get_char(4) == 'p' && s.get_char(5) == ':'
            && s.get_char(6) == '/' {
            proof {
                assert(s@.take(7) =~= "prudp:/"@);
                assert(!chars_prefix(s@, "prudps:/"@)) by {
                    if chars_prefix(s@, "prudps:/"@) {
                        assert(s@.take(8)[5] == s@[5]);
                    }
                }
            }
            self.url_type = StationUrlType::Prudp;
        } else if n >= 5 && s.get_char(0) == 'u' && s.get_char(1) == 'd' && s.get_char(2) == 'p'
            && s.get_char(3) == ':' && s.get_char(4) == '/' {
            proof {
                assert(s@.take(5) =~= "udp:/"@);
                assert(!chars_prefix(s@, "prudps:/"@)) by {
                    if chars_prefix(s@, "prudps:/"@) {
                        assert(s@.take(8)[0] == s@[0]);
                    }
                }
                assert(!chars_prefix(s@, "prudp:/"@)) by {
                    if chars_prefix(s@, "prudp:/"@) {
                        assert(s@.take(7)[0] == s@[0]);
                    }
                }
            }
            self.url_type = StationUrlType::Udp;
        } else {
            proof {
                assert(!chars_prefix(s@, "prudps:/"@)) by {
                    if chars_prefix(s@, "prudps:/"@) {
                        assert(s@.take(8)[0] == s@[0]);
                        assert(s@.take(8)[1] == s@[1]);
                        assert(s@.take(8)[2] == s@[2]);
                        assert(s@.take(8)[3] == s@[3]);
                        assert(s@.take(8)[4] == s@[4]);
                        assert(s@.take(8)[5] == s@[5]);
                        assert(s@.take(8)[6] == s@[6]);
                        assert(s@.take(8)[7] == s@[7]);
                    }
                }
                assert(!chars_prefix(s@, "prudp:/"@)) by {
                    if chars_prefix(s@, "prudp:/"@) {
                        assert(s@.take(7)[0] == s@[0]);
                        assert(s@.take(7)[1] == s@[1]);
                        assert(s@.take(7)[2] == s@[2]);
                        assert(s@.take(7)[3] == s@[3]);
                        assert(s@.take(7)[4] == s@[4]);
                        assert(s@.take(7)[5] == s@[5]);
                        assert(s@.take(7)[6] == s@[6]);
                    }
                }
                assert(!chars_prefix(s@, "udp:/"@)) by {
                    if chars_prefix(s@, "udp:/"@) {
                        assert(s@.take(5)[0] == s@[0]);
                        assert(s@.take(5)[1] == s@[1]);
                        assert(s@.take(5)[2] == s@[2]);
                        assert(s@.take(5)[3] == s@[3]);
                        assert(s@.take(5)[4] == s@[4]);
                    }
                }
            }
            self.url_type = StationUrlType::Unknown;
        }
    }

    /// The canonical text of the parsed scheme.
    pub fn url(&self) -> (r: String)
        ensures
            r@ == scheme_text(self.url_type_spec()),
    {
        match self.url_type {
            StationUrlType::Prudp => "prudp:/".to_owned(),
            StationUrlType::Prudps => "prudps:/".to_owned(),
            StationUrlType::Udp => "udp:/".to_owned(),
            StationUrlType::Unknown => "".to_owned(),
        }
    }

    pub fn is_public(&self) -> (r: bool)
        ensures
            r == (self.flags_spec() & STATION_URL_FLAG_PUBLIC != 0),
    {
        self.flags & STATION_URL_FLAG_PUBLIC != 0
    }

    pub fn is_behind_nat(&self) -> (r: bool)
        ensures
            r == (self.flags_spec() & STATION_URL_FLAG_BEHIND_NAT != 0),
    {
        self.flags & STATION_URL_FLAG_BEHIND_NAT != 0
    }

    /// Writes a length-prefixed string at the prefix width the stream
    /// settings call for. The trailing NUL is written and counted in the
    /// length.
    pub fn write_string(out: &mut ByteStreamOut, s: &str)
        requires
            s.spec_bytes().len() + 1 <= 0xFFFF,
        ensures
            final(out).same_settings(old(out)),
            old(out).string_length_size_spec() == 4 ==> final(out).out() == old(out).out()
                + u32_bytes((s.spec_bytes().len() + 1) as u32) + s.spec_bytes() + seq![0u8],
            old(out).string_length_size_spec() != 4 ==> final(out).out() == old(out).out()
                + u16_bytes((s.spec_bytes().len() + 1) as u16) + s.spec_bytes() + seq![0u8],
    {
        let bytes = s.as_bytes();
        let framed_len = bytes.len() + 1;
        if out.string_length_size() == 4 {
            out.write_u32_le(framed_len as u32);
        } else {
            out.write_u16_le(framed_len as u16);
        }
        out.write(bytes);
        out.write_u8(0);
    }

    /// Reads a length-prefixed byte string at the prefix width the stream
    /// settings call for, and takes off the trailing NUL that the length
    /// counts. Fails with `Parse` exactly when the stream holds fewer
    /// bytes than the prefix, or the prefix itself, declares.
    pub fn read_string(input: &mut ByteStreamIn) -> (r: Result<Vec<u8>, NexError>)
        requires
            old(input).wf(),
        ensures
            final(input).wf(),
            final(input).same_stream(old(input)),
            ({
                let wide = old(input).string_length_size_spec() == 4;
                let b = old(input).data_seq();
                let pos = old(input).position();
                &&& whole_string_present(b, pos, wide) ==> (r matches Ok(v) && v@
                    == strip_trailing_nul(string_bytes_at(b, pos, wide))
                    && final(input).position() == pos + length_prefix_width(wide)
                        + declared_string_len(b, pos, wide))
                &&& !whole_string_present(b, pos, wide) ==> (r matches Err(e) && e is Parse)
            }),
    {
        let len: u64 = if input.string_length_size() == 4 {
            match input.read_u32_le() {
                Ok(v) => v as u64,
                Err(e) => {
                    return Err(e);
                },
            }
        } else {
            match input.read_u16_le() {
                Ok(v) => v as u64,
                Err(e) => {
                    return Err(e);
                },
            }
        };
        let mut bytes = match input.read(len) {
            Ok(v) => v,
            Err(e) => {
                return Err(e);
            },
        };
        let blen = bytes.len();
        if blen > 0 && bytes[blen - 1] == 0 {
            let _ = bytes.pop();
        }
        Ok(bytes)
    }

    /// Writes the canonical scheme text, length-prefixed with its trailing
    /// NUL counted.
    pub fn write_to(&self, out: &mut ByteStreamOut)
        ensures
            final(out).same_settings(old(out)),
            ({
                let text = encode_utf8(scheme_text(self.url_type_spec()));
                if old(out).string_length_size_spec() == 4 {
                    final(out).out() == old(out).out() + u32_bytes((text.len() + 1) as u32)
                        + text + seq![0u8]
                } else {
                    final(out).out() == old(out).out() + u16_bytes((text.len() + 1) as u16)
                        + text + seq![0u8]
                }
            }),
    {
        let s = self.url();
        proof {
            reveal_strlit("prudps:/");
            reveal_strlit("prudp:/");
            reveal_strlit("udp:/");
            reveal_strlit("");
            lemma_scheme_literals_ascii();
            is_ascii_chars_encode_utf8(scheme_text(self.url_type_spec()));
        }
        Self::write_string(out, s.as_str());
    }

    /// Reads a station URL: a length-prefixed text whose scheme is then
    /// classified. Succeeds exactly when the stream holds the whole
    /// declared string; when the text is ASCII, the result carries exactly
    /// the characters read.
    pub fn extract_from(input: &mut ByteStreamIn) -> (r: Result<StationUrl, NexError>)
        requires
            old(input).wf(),
        ensures
            final(input).wf(),
            final(input).same_stream(old(input)),
            ({
                let wide = old(input).string_length_size_spec() == 4;
                let b = old(input).data_seq();
                let pos = old(input).position();
                &&& whole_string_present(b, pos, wide) ==> r is Ok
                &&& !whole_string_present(b, pos, wide) ==> (r matches Err(e) && e is Parse)
                &&& r matches Ok(u) ==> {
                    let text = strip_trailing_nul(string_bytes_at(b, pos, wide));
                    &&& u.url_type_spec() == scheme_of(u.url_chars())
                    &&& u.flags_spec() == 0
                    &&& is_ascii_chars(chars_of_bytes(text)) ==> u.url_chars()
                        == chars_of_bytes(text)
                    &&& final(input).position() == pos + length_prefix_width(wide)
                        + declared_string_len(b, pos, wide)
                }
            }),
    {
        let bytes = match Self::read_string(input) {
            Ok(v) => v,
            Err(e) => {
                return Err(e);
            },
        };
        let text = bytes_to_string_lossy(bytes.as_slice());
        Ok(Self::new(text))
    }
}

/// Relies on String::from_utf8_lossy: well-formed UTF-8 comes through
/// unchanged and anything else has its ill-formed sequences replaced, so
/// the call always returns a string.
#[verifier::external_body]
fn bytes_to_string_lossy(v: &[u8]) -> (r: String)
    ensures
        is_ascii_chars(v@.map_values(|b: u8| b as char)) ==> r@ == v@.map_values(
            |b: u8| b as char,
        ),
{
    String::from_utf8_lossy(v).into_owned()
}

} // verus!

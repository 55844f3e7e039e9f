//! The contract pin: the files that fix the page's side of the bridge are held
//! to the digests they were frozen with.

use crate::outside::sha256;
use crate::text::{push_hex, replace_all, same_text};
use vstd::prelude::*;

verus! {

/// The text with Windows line ends written as plain ones, so that a checkout
/// does not change the digest.
pub open spec fn normalized(raw: Seq<char>) -> Seq<char> {
    crate::text::replaced(raw, "\r\n"@, "\n"@)
}

/// The pin of a file: the hex text of the digest over its normalized text.
pub open spec fn pin_of(raw: Seq<char>) -> Seq<char> {
    crate::text::hex_of(crate::outside::sha256_of(vstd::utf8::encode_utf8(normalized(raw))))
}

/// Whether a digest is the one that a pin names.
pub fn digest_matches(digest: &[u8], pin: &str) -> (same: bool)
    ensures
        same == (crate::text::hex_of(digest@) == pin@),
{
    let mut text = String::new();
    push_hex(&mut text, digest, digest.len());
    assert(digest@.take(digest@.len() as int) =~= digest@);
    assert(text@ =~= crate::text::hex_of(digest@));
    same_text(text.as_str(), pin)
}

/// Whether a contract file is still the one that was pinned.
pub fn matches_pin(raw: &str, pin: &str) -> (same: bool)
    ensures
        same == (pin_of(raw@) == pin@),
{
    proof {
        reveal_strlit("\r\n");
    }
    let text = replace_all(raw, "\r\n", "\n");
    digest_matches(sha256(text.as_str().as_bytes()).as_slice(), pin)
}

/// A file with the same characters but for Windows line ends has the same pin,
/// wherever those ends are the only carriage returns in it.
pub proof fn law_line_ends_do_not_move_the_pin(unix: Seq<char>, windows: Seq<char>)
    requires
        forall|i: int| 0 <= i < unix.len() ==> #[trigger] unix[i] != '\r',
        windows == crate::text::replaced(unix, "\n"@, "\r\n"@),
    ensures
        pin_of(windows) == pin_of(unix),
{
    lemma_ends_undone(unix);
    lemma_no_returns(unix);
}

proof fn lemma_no_returns(unix: Seq<char>)
    requires
        forall|i: int| 0 <= i < unix.len() ==> #[trigger] unix[i] != '\r',
    ensures
        normalized(unix) == unix,
    decreases unix.len(),
{
    reveal_strlit("\r\n");
    reveal_strlit("\n");
    if unix.len() >= 2 {
        assert(!crate::text::occurs_at(unix, "\r\n"@, 0)) by {
            assert("\r\n"@[0] == '\r');
            if unix.subrange(0, 2) == "\r\n"@ {
                assert(unix.subrange(0, 2)[0] == unix[0]);
            }
        }
        lemma_no_returns(unix.skip(1));
        assert(seq![unix[0]] + unix.skip(1) =~= unix);
    }
}

proof fn lemma_ends_undone(unix: Seq<char>)
    requires
        forall|i: int| 0 <= i < unix.len() ==> #[trigger] unix[i] != '\r',
    ensures
        normalized(crate::text::replaced(unix, "\n"@, "\r\n"@)) == unix,
    decreases unix.len(),
{
    reveal_strlit("\r\n");
    reveal_strlit("\n");
    let nl = "\n"@;
    let crlf = "\r\n"@;
    assert(nl =~= seq!['\n']);
    assert(crlf =~= seq!['\r', '\n']);
    if unix.len() > 0 {
        let rest = crate::text::replaced(unix.skip(1), nl, crlf);
        let all = crate::text::replaced(unix, nl, crlf);
        lemma_ends_undone(unix.skip(1));
        assert(unix.subrange(0, 1) =~= seq![unix[0]]);
        assert(seq![unix[0]] + unix.skip(1) =~= unix);
        if unix[0] == '\n' {
            assert(crate::text::occurs_at(unix, nl, 0));
            assert(all == crlf + rest);
            assert(all.subrange(0, 2) =~= crlf);
            assert(all.skip(2) =~= rest);
            assert(crate::text::occurs_at(all, crlf, 0));
            assert(normalized(all) == nl + normalized(rest));
        } else {
            assert(!crate::text::occurs_at(unix, nl, 0)) by {
                if unix.subrange(0, 1) == nl {
                    assert(unix.subrange(0, 1)[0] == unix[0]);
                }
            }
            assert(all == seq![unix[0]] + rest);
            assert(all.skip(1) =~= rest);
            if all.len() >= 2 {
                assert(!crate::text::occurs_at(all, crlf, 0)) by {
                    if all.subrange(0, 2) == crlf {
                        assert(all.subrange(0, 2)[0] == all[0]);
                    }
                }
                assert(normalized(all) == seq![all[0]] + normalized(rest));
            } else {
                assert(normalized(all) == all);
                assert(rest.len() == 0);
                assert(normalized(rest) == rest);
                assert(unix.skip(1) =~= rest);
            }
        }
    } else {
        assert(crate::text::replaced(unix, nl, crlf) =~= unix);
    }
}

/// A file is held to its own digest: two files have one pin exactly when the
/// digests of their texts, line ends made plain, are the same, and a text
/// without Windows line ends goes into its digest as it is.
pub proof fn law_a_pin_is_of_one_digest(a: Seq<char>, b: Seq<char>)
    ensures
        pin_of(a) == pin_of(b) <==> crate::outside::sha256_of(
            vstd::utf8::encode_utf8(crate::text::replaced(a, "\r\n"@, "\n"@)),
        ) == crate::outside::sha256_of(
            vstd::utf8::encode_utf8(crate::text::replaced(b, "\r\n"@, "\n"@)),
        ),
        !crate::text::contains_text(a, "\r\n"@) ==> pin_of(a) == crate::text::hex_of(
            crate::outside::sha256_of(vstd::utf8::encode_utf8(a)),
        ),
{
    crate::text::law_hex_text_is_the_bytes(
        crate::outside::sha256_of(vstd::utf8::encode_utf8(normalized(a))),
        crate::outside::sha256_of(vstd::utf8::encode_utf8(normalized(b))),
    );
    reveal_strlit("\r\n");
    crate::text::law_replacement_goes_from_left_to_right(
        Seq::empty(),
        "\r\n"@,
        Seq::empty(),
        "\n"@,
        a,
    );
}

/// A file matches a pin exactly if the pin is the one of its text.
pub proof fn law_a_changed_file_does_not_match(raw: &str, pin: &str, same: bool)
    requires
        call_ensures(matches_pin, (raw, pin), same),
    ensures
        same <==> pin_of(raw@) == pin@,
{
}

}

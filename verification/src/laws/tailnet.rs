//! What the choice of the bind addresses promises.

use crate::bytes::utf8_text;
use crate::scan::{free_of, lemma_first_cut, lemma_one_piece};
use crate::tailnet::{
    first_line, resolved, tailnet_source, tailscale, Address, Resolution, TailnetSource,
};
use vstd::prelude::*;

verus! {

/// Tailscale gives the addresses from 100.64.0.0 to 100.127.255.255 and no
/// others.
pub proof fn tailscale_addresses_lie_in_one_block(o: [u8; 4], w: [u16; 8])
    ensures
        tailscale(Address::V4(o)) <==> o[0] == 100 && 64 <= o[1] <= 127,
        !tailscale(Address::V6(w)),
        tailnet_source(Some(Address::V4(o))) == TailnetSource::Use(Address::V4(o)),
        tailnet_source(Some(Address::V6(w))) == TailnetSource::Use(Address::V6(w)),
        tailnet_source(None) == TailnetSource::Discover,
{
}

/// The first line of what was printed ends at its line feed, with the carriage
/// return before it; what follows makes no difference.
pub proof fn the_first_line_ends_at_its_line_feed(line: Seq<char>, rest: Seq<char>)
    requires
        !line.contains('\n'),
    ensures
        line.len() > 0 ==> first_line(line) == Some(line),
        line.len() == 0 ==> first_line(line) is None,
        line.len() == 0 || line.last() != '\r' ==> first_line(line + seq!['\n'] + rest) == Some(
            line,
        ),
        first_line(line + seq!['\r'] + seq!['\n'] + rest) == Some(line),
{
    let back = line + seq!['\r'];
    assert(free_of(line, '\n')) by {
        assert forall|i: int| 0 <= i < line.len() implies #[trigger] line[i] != '\n' by {
            assert(line.contains(line[i]));
        }
    }
    assert(free_of(back, '\n'));
    lemma_one_piece(line, '\n');
    lemma_first_cut(line, '\n', rest);
    lemma_first_cut(back, '\n', rest);
    assert(back.drop_last() =~= line);
}

/// The address is the first line of what a run that succeeded printed; where
/// there is none, the reason is told.
pub proof fn the_address_is_the_first_line(
    error: String,
    stdout: Vec<u8>,
    printed: Seq<char>,
    line: Seq<char>,
)
    ensures
        resolved(Resolution::NotRun(error)) == Err::<Seq<char>, _>(
            "could not run tailscale ip -4: "@ + error@
                + "; use --tailscale-ip only for explicit test/development overrides"@,
        ),
        resolved(Resolution::Ran(false, stdout)) == Err::<Seq<char>, _>(
            "tailscale ip -4 failed; relay will not bind broadly"@,
        ),
        utf8_text(stdout@) is None ==> resolved(Resolution::Ran(true, stdout)) == Err::<
            Seq<char>,
            _,
        >("tailscale ip -4 produced non-UTF-8 output"@),
        utf8_text(stdout@) == Some(printed) && first_line(printed) is None ==> resolved(
            Resolution::Ran(true, stdout),
        ) == Err::<Seq<char>, _>("tailscale ip -4 returned no address"@),
        utf8_text(stdout@) == Some(printed) && first_line(printed) == Some(line) ==> resolved(
            Resolution::Ran(true, stdout),
        ) == Ok::<_, Seq<char>>(line),
{
}

} // verus!

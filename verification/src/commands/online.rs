//! Online command: the status of a server in words.

use crate::mc_server::{PlayerSampleView, ServerStatus, ServerStatusView};
use crate::utils::text::{decimal_digits, decimal_string};
use vstd::prelude::*;
use vstd::string::*;

verus! {

/// The names of the players, separated by commas.
pub open spec fn joined_names(sample: Seq<PlayerSampleView>) -> Seq<char>
    decreases sample.len(),
{
    if sample.len() == 0 {
        Seq::empty()
    } else if sample.len() == 1 {
        sample[0].name
    } else {
        joined_names(sample.drop_last()) + ", "@ + sample.last().name
    }
}

/// The line that lists the players who are online; nothing where the
/// server names none.
pub open spec fn player_line(sample: Seq<PlayerSampleView>) -> Seq<char> {
    if sample.len() == 0 {
        Seq::empty()
    } else {
        "\n**Players online:** "@ + joined_names(sample)
    }
}

/// The status of a server as it is shown to a person.
pub open spec fn status_report(status: ServerStatusView) -> Seq<char> {
    "**Minecraft Server Status** \u{1f3ae}\n**Version:** "@ + status.version.name
        + "\n**Players:** "@ + decimal_digits(status.players.online as nat) + "/"@ + decimal_digits(
        status.players.max as nat,
    ) + "\n**Description:** "@ + status.description.text() + player_line(status.players.sample)
}

/// Writes the status of a server as it is shown to a person.
pub fn format_status(status: &ServerStatus) -> (r: String)
    ensures
        r@ == status_report(status@),
{
    let mut text = String::from_str("**Minecraft Server Status** \u{1f3ae}\n**Version:** ");
    text.append(status.version.name.as_str());
    text.append("\n**Players:** ");
    text.append(decimal_string(status.players.online as u64).as_str());
    text.append("/");
    text.append(decimal_string(status.players.max as u64).as_str());
    text.append("\n**Description:** ");
    text.append(status.description.text());
    let ghost head = text@;
    let ghost sample = status@.players.sample;
    let n: usize = status.players.sample.len();
    if n > 0 {
        text.append("\n**Players online:** ");
        let ghost listed = text@;
        let mut i: usize = 0;
        proof {
            assert(sample.take(0) =~= Seq::<PlayerSampleView>::empty());
        }
        while i < n
            invariant
                i <= n,
                n == status.players.sample@.len(),
                sample == status@.players.sample,
                text@ == listed + joined_names(sample.take(i as int)),
            decreases n - i,
        {
            proof {
                assert(sample.take(i + 1).drop_last() =~= sample.take(i as int));
                assert(sample.take(i + 1).last() == status.players.sample@[i as int]@);
                if i == 1 {
                    assert(sample.take(1)[0] == sample[0]);
                }
            }
            if i > 0 {
                text.append(", ");
            }
            text.append(status.players.sample[i].name.as_str());
            proof {
                assert(text@ =~= listed + joined_names(sample.take(i + 1)));
            }
            i = i + 1;
        }
        proof {
            assert(sample.take(n as int) =~= sample);
            assert(text@ =~= head + player_line(sample));
        }
    } else {
        assert(text@ =~= head + player_line(sample));
    }
    text
}

} // verus!

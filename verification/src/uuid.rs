//! The `uuid` sample module: on `!uuid`, draw two random words and
//! respond with the 128-bit value in canonical hexadecimal form.

use vstd::prelude::*;

use crate::command::{ModuleState, TrinityCommand};
use crate::messaging::CommandClient;
use crate::textutil::{chars_of, spec_starts_with, starts_with_chars, string_of_chars};

verus! {

/// The lowercase hexadecimal digit for a value below 16.
pub open spec fn hex_digit(v: int) -> char {
    if v == 0 {
        '0'
    } else if v == 1 {
        '1'
    } else if v == 2 {
        '2'
    } else if v == 3 {
        '3'
    } else if v == 4 {
        '4'
    } else if v == 5 {
        '5'
    } else if v == 6 {
        '6'
    } else if v == 7 {
        '7'
    } else if v == 8 {
        '8'
    } else if v == 9 {
        '9'
    } else if v == 10 {
        'a'
    } else if v == 11 {
        'b'
    } else if v == 12 {
        'c'
    } else if v == 13 {
        'd'
    } else if v == 14 {
        'e'
    } else {
        'f'
    }
}

/// The sixteen hexadecimal digits of a `u64`, most significant first.
pub open spec fn hex16(x: u64) -> Seq<char> {
    Seq::new(16, |i: int| hex_digit(((x >> ((15 - i) * 4)) & 0xf) as int))
}

/// The canonical text of the 128-bit value `high ++ low`: thirty-two
/// hexadecimal digits in five dash-separated groups of 8, 4, 4, 4 and 12.
pub open spec fn spec_uuid(high: u64, low: u64) -> Seq<char> {
    let d = hex16(high) + hex16(low);
    d.subrange(0, 8) + "-"@ + d.subrange(8, 12) + "-"@ + d.subrange(12, 16) + "-"@ + d.subrange(
        16,
        20,
    ) + "-"@ + d.subrange(20, 32)
}

/// The lowercase hexadecimal digit of a value below 16.
fn hex_digit_of(v: u64) -> (r: char)
    requires
        v < 16,
    ensures
        r == hex_digit(v as int),
{
    if v == 0 {
        '0'
    } else if v == 1 {
        '1'
    } else if v == 2 {
        '2'
    } else if v == 3 {
        '3'
    } else if v == 4 {
        '4'
    } else if v == 5 {
        '5'
    } else if v == 6 {
        '6'
    } else if v == 7 {
        '7'
    } else if v == 8 {
        '8'
    } else if v == 9 {
        '9'
    } else if v == 10 {
        'a'
    } else if v == 11 {
        'b'
    } else if v == 12 {
        'c'
    } else if v == 13 {
        'd'
    } else if v == 14 {
        'e'
    } else {
        'f'
    }
}

/// The sixteen hexadecimal digits of a `u64`, most significant first.
fn push_hex16(out: &mut Vec<char>, x: u64)
    ensures
        final(out)@ == old(out)@ + hex16(x),
{
    let mut i: usize = 0;
    while i < 16
        invariant
            i <= 16,
            out@ == old(out)@ + hex16(x).take(i as int),
        decreases 16 - i,
    {
        let shift: u64 = ((15 - i) * 4) as u64;
        proof {
            assert(shift < 64);
            assert((x >> shift) & 0xf < 16) by (bit_vector);
        }
        let nibble = (x >> shift) & 0xf;
        out.push(hex_digit_of(nibble));
        i = i + 1;
        proof {
            assert(hex16(x)[i - 1] == hex_digit(((x >> ((15 - (i - 1)) * 4)) & 0xf) as int));
            assert(out@ =~= old(out)@ + hex16(x).take(i as int));
        }
    }
    proof {
        assert(hex16(x).take(16) =~= hex16(x));
    }
}

/// Appends `digits[a..b]`.
fn push_range(out: &mut Vec<char>, digits: &Vec<char>, a: usize, b: usize)
    requires
        a <= b <= digits@.len(),
    ensures
        final(out)@ == old(out)@ + digits@.subrange(a as int, b as int),
{
    let mut i: usize = a;
    while i < b
        invariant
            a <= i <= b <= digits@.len(),
            out@ =~= old(out)@ + digits@.subrange(a as int, i as int),
        decreases b - i,
    {
        out.push(digits[i]);
        i = i + 1;
    }
    proof {
        assert(out@ =~= old(out)@ + digits@.subrange(a as int, b as int));
    }
}

/// The canonical text of the 128-bit value `high ++ low`.
pub fn format_uuid(high: u64, low: u64) -> (r: String)
    ensures
        r@ == spec_uuid(high, low),
{
    let mut digits: Vec<char> = Vec::new();
    push_hex16(&mut digits, high);
    push_hex16(&mut digits, low);
    let mut out: Vec<char> = Vec::new();
    push_range(&mut out, &digits, 0, 8);
    out.push('-');
    push_range(&mut out, &digits, 8, 12);
    out.push('-');
    push_range(&mut out, &digits, 12, 16);
    out.push('-');
    push_range(&mut out, &digits, 16, 20);
    out.push('-');
    push_range(&mut out, &digits, 20, 32);
    let r = string_of_chars(out.as_slice());
    proof {
        reveal_strlit("-");
        assert("-"@ =~= seq!['-']);
        assert(r@ =~= spec_uuid(high, low));
    }
    r
}

/// The `uuid` module.
pub struct Component;

impl Component {
    /// The response to one `!uuid` request, from the two random words.
    pub fn uuid_reply(high: u64, low: u64) -> (r: String)
        ensures
            r@ == spec_uuid(high, low),
    {
        format_uuid(high, low)
    }
}

impl TrinityCommand for Component {
    fn init(
        _state: &mut ModuleState,
        _db: &mut redb::Database,
        _config: Option<Vec<(String, String)>>,
    ) {
    }

    fn on_msg(
        client: &mut CommandClient,
        state: &mut ModuleState,
        _db: &mut redb::Database,
        content: &str,
    )
        ensures
            crate::store::kv_tables(*final(_db)) == crate::store::kv_tables(*old(_db)),
            final(client).spec_reactions() == old(client).spec_reactions(),
            final(client).spec_from() == old(client).spec_from(),
            final(client).spec_room() == old(client).spec_room(),
            !spec_starts_with(content@, "!uuid"@) ==> final(client).spec_messages() == old(
                client,
            ).spec_messages(),
            spec_starts_with(content@, "!uuid"@) ==> exists|r1: u64, r2: u64|
                final(client).spec_messages() == old(client).spec_messages().push(
                    (old(client).spec_from(), #[trigger] spec_uuid(r1, r2)),
                ),
    {
        let chars = chars_of(content);
        let prefix = chars_of("!uuid");
        if !starts_with_chars(&chars, &prefix) {
            return ;
        }
        let r1 = state.apis.sys.rand_u64();
        let r2 = state.apis.sys.rand_u64();
        let text = Component::uuid_reply(r1, r2);
        client.respond(text);
        proof {
            assert(client.spec_messages() == old(client).spec_messages().push(
                (old(client).spec_from(), spec_uuid(r1, r2)),
            ));
        }
    }

    fn on_help(_topic: Option<&str>) -> String {
        "Simple uuid generator".to_owned()
    }

    fn on_admin(
        _client: &mut CommandClient,
        _state: &mut ModuleState,
        _db: &mut redb::Database,
        _cmd: &str,
    ) {
    }
}

} // verus!

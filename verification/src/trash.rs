//! Decisions around the holding area that receives discarded files: its
//! unique, timestamp-keyed name, collision-free names inside it, and the
//! helper script that deletes it when its terminal session ends.

use crate::text::{dec_str, starts_with_seq};
use vstd::prelude::*;

verus! {

/// The holding-area path for a timestamp.
pub open spec fn trash_dir_spec(stamp: Seq<char>) -> Seq<char> {
    "/tmp/maid-trash-bin-"@ + stamp
}

/// Builds the holding-area path for a timestamp.
pub fn trash_dir_name(stamp: &str) -> (r: String)
    ensures
        r@ == trash_dir_spec(stamp@),
{
    let mut r = String::from_str("/tmp/maid-trash-bin-");
    r.append(stamp);
    r
}

/// Builds the holding-area path keyed by the current local time.
pub fn new_trash_dir_name() -> (r: String)
    ensures
        starts_with_seq(r@, "/tmp/maid-trash-bin-"@),
{
    let stamp = crate::clock::current_stamp_string();
    let r = trash_dir_name(stamp.as_str());
    proof {
        assert(r@.subrange(0, "/tmp/maid-trash-bin-"@.len() as int) =~= "/tmp/maid-trash-bin-"@);
    }
    r
}

/// Renders a number in decimal, most significant digit first.
pub fn u64_to_string(v: u64) -> (r: String)
    ensures
        r@ == dec_str(v as nat),
{
    let mut digits: Vec<char> = Vec::new();
    let mut x: u64 = v;
    loop
        invariant_except_break
            digits@.len() == 0 ==> x == v,
            digits@.len() > 0 ==> x > 0,
            digits@.len() > 0 ==> dec_str(v as nat) == dec_str(x as nat) + digits@.reverse(),
        ensures
            digits@.len() > 0,
            dec_str(v as nat) == digits@.reverse(),
        decreases x,
    {
        let d: u64 = x % 10;
        let c: char = (48 + d as u8) as char;
        let ghost digits0 = digits@;
        let ghost x0 = x;
        digits.push(c);
        x = x / 10;
        proof {
            assert(c == crate::text::dec_digit(x0 as int % 10));
            assert(digits@.reverse() =~= seq![c] + digits0.reverse());
            if x0 >= 10 {
                assert(dec_str(x0 as nat) == dec_str((x0 / 10) as nat).push(
                    crate::text::dec_digit(x0 as int % 10),
                ));
                assert(dec_str(x0 as nat) =~= dec_str((x0 / 10) as nat) + seq![c]);
            } else {
                assert(x0 as int % 10 == x0 as int);
                assert(dec_str(x0 as nat) == seq![c]);
            }
            if digits0.len() == 0 {
                assert(x0 == v);
                if x0 >= 10 {
                    assert(dec_str(v as nat) =~= dec_str((x0 / 10) as nat) + digits@.reverse());
                } else {
                    assert(dec_str(v as nat) =~= digits@.reverse());
                }
            } else {
                assert(dec_str(v as nat) == dec_str(x0 as nat) + digits0.reverse());
                if x0 >= 10 {
                    assert(dec_str(v as nat) =~= dec_str((x0 / 10) as nat) + digits@.reverse());
                } else {
                    assert(dec_str(v as nat) =~= digits@.reverse());
                }
            }
        }
        if x == 0 {
            break;
        }
    }
    let n: usize = digits.len();
    let mut out = String::new();
    let mut i: usize = 0;
    while i < n
        invariant
            n == digits@.len(),
            n > 0,
            0 <= i <= n,
            dec_str(v as nat) == digits@.reverse(),
            out@ == digits@.reverse().take(i as int),
        decreases n - i,
    {
        let c = digits[n - 1 - i];
        crate::fold::push_char(&mut out, c);
        proof {
            assert(digits@.reverse()[i as int] == digits@[n - 1 - i as int]);
            assert(digits@.reverse().take(i as int + 1) =~= digits@.reverse().take(
                i as int,
            ).push(digits@.reverse()[i as int]));
        }
        i += 1;
    }
    proof {
        assert(digits@.reverse().take(n as int) =~= digits@.reverse());
    }
    out
}

/// A collision-avoiding file name inside the holding area: the stem, a
/// counter and the extension.
pub open spec fn numbered_name_spec(stem: Seq<char>, counter: nat, ext: Seq<char>) -> Seq<char> {
    stem + "-"@ + dec_str(counter) + "."@ + ext
}

/// Builds a collision-avoiding file name from a stem, a counter and an
/// extension.
pub fn numbered_trash_name(stem: &str, counter: u64, ext: &str) -> (r: String)
    ensures
        r@ == numbered_name_spec(stem@, counter as nat, ext@),
{
    let mut r = String::from_str(stem);
    r.append("-");
    let num = u64_to_string(counter);
    r.append(num.as_str());
    r.append(".");
    r.append(ext);
    r
}

/// The body of the helper script that removes the holding area when the
/// terminal session it runs in ends.
pub open spec fn self_destruct_script_spec(trash_dir: Seq<char>) -> Seq<char> {
    "#!/bin/bash\n# This script will delete the maid trash bin when the terminal session ends\ntrap \"rm -rf "@
        + trash_dir
        + "\" EXIT\n# Keep the terminal session open until explicit termination\ncat <(echo \"Maid trash bin will be deleted when this terminal is closed.\")\n# Execute the trap even if the script is killed\nexec bash"@
}

/// Builds the self-expiry helper script for a holding area.
pub fn self_destruct_script(trash_dir: &str) -> (r: String)
    ensures
        r@ == self_destruct_script_spec(trash_dir@),
{
    let mut r = String::from_str(
        "#!/bin/bash\n# This script will delete the maid trash bin when the terminal session ends\ntrap \"rm -rf ",
    );
    r.append(trash_dir);
    r.append(
        "\" EXIT\n# Keep the terminal session open until explicit termination\ncat <(echo \"Maid trash bin will be deleted when this terminal is closed.\")\n# Execute the trap even if the script is killed\nexec bash",
    );
    r
}

} // verus!

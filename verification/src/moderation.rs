//! Screening of candidate identifiers for inappropriate content: each
//! identifier alone, and every window of adjacent identifiers joined
//! together, so that nothing objectionable can be smuggled in by
//! splitting it across options.

use vstd::prelude::*;
use vstd::string::StringExecFns;

verus! {

/// Whether rustrict's analysis finds the text inappropriate.
pub uninterp spec fn inappropriate_of(s: Seq<char>) -> bool;

/// Relies on rustrict's `CensorStr::is_inappropriate` with the crate's
/// built-in word list (no `customize` feature): the result depends on
/// the text alone.
#[verifier::external_body]
fn is_inappropriate(s: &str) -> (r: bool)
    ensures
        r == inappropriate_of(s@),
{
    rustrict::CensorStr::is_inappropriate(s)
}

/// The views of the identifiers.
pub open spec fn text_views(options: Seq<String>) -> Seq<Seq<char>> {
    options.map_values(|o: String| o@)
}

/// `len` identifiers starting at `start`, joined with nothing between.
pub open spec fn joined(options: Seq<Seq<char>>, start: int, len: int) -> Seq<char>
    decreases len,
{
    if len <= 0 {
        Seq::empty()
    } else {
        joined(options, start, len - 1) + options[start + len - 1]
    }
}

/// `len` identifiers starting at `start`, joined with ", " between.
pub open spec fn joined_listed(options: Seq<Seq<char>>, start: int, len: int) -> Seq<char>
    decreases len,
{
    if len <= 0 {
        Seq::empty()
    } else if len == 1 {
        options[start]
    } else {
        joined_listed(options, start, len - 1) + ", "@ + options[start + len - 1]
    }
}

/// No single identifier and no joined window of adjacent identifiers
/// is inappropriate.
pub open spec fn all_windows_clean(ovs: Seq<Seq<char>>) -> bool {
    &&& forall|i: int| 0 <= i < ovs.len() ==> !inappropriate_of(#[trigger] ovs[i])
    &&& forall|ws: int, st: int|
        2 <= ws <= ovs.len() && 0 <= st <= ovs.len() - ws ==> !inappropriate_of(
            #[trigger] joined(ovs, st, ws),
        )
}

/// Screen the candidate identifiers: first each alone, then every
/// window of adjacent identifiers joined, smallest windows first. The
/// first hit names the offending text in the returned message.
#[verifier::loop_isolation(false)]
pub fn check_combined_options_for_profanity(options: &Vec<String>) -> (r: Result<(), String>)
    requires
            // so that stepping the window width cannot overflow
            options@.len() < usize::MAX,
    ensures
        r is Ok <==> all_windows_clean(text_views(options@)),
        r matches Err(msg) ==> {
            let ovs = text_views(options@);
            ||| (exists|i: int|
                {
                    &&& 0 <= i < ovs.len()
                    &&& inappropriate_of(#[trigger] ovs[i])
                    &&& forall|u: int| 0 <= u < i ==> !inappropriate_of(#[trigger] ovs[u])
                    &&& msg@ == "Possible profanity detected in option: "@ + ovs[i]
                })
            ||| ((forall|i: int| 0 <= i < ovs.len() ==> !inappropriate_of(#[trigger] ovs[i]))
                && exists|ws: int, st: int|
                {
                    &&& 2 <= ws <= ovs.len()
                    &&& 0 <= st <= ovs.len() - ws
                    &&& inappropriate_of(#[trigger] joined(ovs, st, ws))
                    &&& forall|w2: int, s2: int|
                        2 <= w2 <= ovs.len() && 0 <= s2 <= ovs.len() - w2 && (w2 < ws || (w2 == ws
                            && s2 < st)) ==> !inappropriate_of(#[trigger] joined(ovs, s2, w2))
                    &&& msg@ == "Inappropriate content detected across options: "@ + joined_listed(
                        ovs,
                        st,
                        ws,
                    )
                })
        },
{
    let ghost ovs = text_views(options@);
    let n = options.len();
    for i in 0..n
        invariant
            forall|u: int| 0 <= u < i ==> !inappropriate_of(#[trigger] ovs[u]),
    {
        if is_inappropriate(options[i].as_str()) {
            proof {
                assert(ovs[i as int] == options@[i as int]@);
                assert(inappropriate_of(ovs[i as int]));
            }
            let mut msg = "Possible profanity detected in option: ".to_owned();
            msg.append(options[i].as_str());
            return Err(msg);
        }
    }

    let mut ws: usize = 2;
    while ws <= n
        invariant
            2 <= ws,
            ws <= n + 1 || n < 2,
            forall|i: int| 0 <= i < ovs.len() ==> !inappropriate_of(#[trigger] ovs[i]),
            forall|w2: int, s2: int|
                2 <= w2 < ws && 0 <= s2 <= ovs.len() - w2 ==> !inappropriate_of(
                    #[trigger] joined(ovs, s2, w2),
                ),
        decreases n + 1 - ws,
    {
        let last = n - ws;
        let mut st: usize = 0;
        while st <= last
            invariant
                0 <= st <= last + 1,
                last == n - ws,
                2 <= ws <= n,
                forall|w2: int, s2: int|
                    2 <= w2 < ws && 0 <= s2 <= ovs.len() - w2 ==> !inappropriate_of(
                        #[trigger] joined(ovs, s2, w2),
                    ),
                forall|s2: int|
                    0 <= s2 < st ==> !inappropriate_of(#[trigger] joined(ovs, s2, ws as int)),
            decreases last + 1 - st,
        {
            let mut combined = String::new();
            let mut listed = String::new();
            for t in st..st + ws
                invariant
                    st + ws <= n,
                    combined@ == joined(ovs, st as int, t - st),
                    listed@ == joined_listed(ovs, st as int, t - st),
            {
                combined.append(options[t].as_str());
                if t > st {
                    listed.append(", ");
                }
                listed.append(options[t].as_str());
            }
            if is_inappropriate(combined.as_str()) {
                let mut msg = "Inappropriate content detected across options: ".to_owned();
                msg.append(listed.as_str());
                return Err(msg);
            }
            st = st + 1;
        }
        ws = ws + 1;
    }
    Ok(())
}

} // verus!

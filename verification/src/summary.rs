//! The sentence that describes a stretch of activity, made from counts and
//! a title alone.

use vstd::prelude::*;
use crate::text::{decimal, decimal_string};
use crate::workstream::{BufferedEvent, EventType};

verus! {

/// How many events of `events` are of kind `kind`.
pub open spec fn count_of(events: Seq<BufferedEvent>, kind: EventType) -> nat
    decreases events.len(),
{
    if events.len() == 0 {
        0
    } else {
        count_of(events.drop_last(), kind) + if events.last().event_type == kind {
            1nat
        } else {
            0nat
        }
    }
}

/// `n` of a thing named `noun`, the noun in the plural unless `n` is one:
/// `1 site`, `2 sites`.
pub open spec fn counted(n: nat, noun: Seq<char>) -> Seq<char> {
    decimal(n) + seq![' '] + noun + if n > 1 {
        seq!['s']
    } else {
        Seq::<char>::empty()
    }
}

/// The sentence for the given counts of edits, page visits, searches, tool
/// uses and saves on the thing titled `title`.
///
/// Edits come first, with the saving if there was any; page visits follow as
/// research if there were edits, else they come first; searches are
/// mentioned only where there were neither edits nor page visits; tool uses
/// come last. Where there is nothing to say, the activity was brief.
pub open spec fn summary_of(edits: nat, visits: nat, searches: nat, tools: nat, saves: nat, title: Seq<char>) -> Seq<
    char,
> {
    let a = if edits > 0 {
        (if saves > 0 {
            "Edited and saved "@
        } else {
            "Edited "@
        }) + title
    } else {
        Seq::<char>::empty()
    };
    let b = if visits > 0 {
        if edits > 0 {
            a + " with "@ + counted(visits, "site"@) + " researched"@
        } else {
            "Browsed "@ + counted(visits, "site"@)
        }
    } else {
        a
    };
    let c = if searches > 0 && edits == 0 && visits == 0 {
        "Searched "@ + counted(searches, "time"@)
    } else {
        b
    };
    let d = if tools > 0 {
        if edits == 0 && visits == 0 && searches == 0 {
            "Used "@ + counted(tools, "tool"@)
        } else {
            c + " using "@ + counted(tools, "tool"@)
        }
    } else {
        c
    };
    if edits == 0 && visits == 0 && searches == 0 && tools == 0 {
        "Brief activity on "@ + title
    } else {
        d
    }
}

/// The title under which activity with no title of its own is described.
pub open spec fn title_or_default(context_title: Option<String>) -> Seq<char> {
    match context_title {
        Some(t) => t@,
        None => "document"@,
    }
}

/// Counts the events of one kind.
pub fn count_events(events: &[BufferedEvent], kind: EventType) -> (n: usize)
    ensures
        n == count_of(events@, kind),
        n <= events@.len(),
{
    let len = events.len();
    let mut n: usize = 0;
    let mut i: usize = 0;
    proof {
        assert(events@.take(0) =~= Seq::<BufferedEvent>::empty());
    }
    while i < len
        invariant
            i <= len,
            len == events@.len(),
            n <= i,
            n == count_of(events@.take(i as int), kind),
        decreases len - i,
    {
        proof {
            assert(events@.take(i + 1).drop_last() =~= events@.take(i as int));
        }
        if events[i].event_type == kind {
            n += 1;
        }
        i += 1;
    }
    proof {
        assert(events@.take(len as int) =~= events@);
    }
    n
}

/// Writes `n` of a thing named `noun`.
fn counted_text(n: usize, noun: &str) -> (r: String)
    ensures
        r@ == counted(n as nat, noun@),
{
    proof {
        reveal_strlit(" ");
        reveal_strlit("s");
        reveal_strlit("");
        assert(" "@ =~= seq![' ']);
        assert("s"@ =~= seq!['s']);
        assert(""@ =~= Seq::<char>::empty());
    }
    let plural = if n > 1 {
        "s"
    } else {
        ""
    };
    decimal_string(n as u64).concat(" ").concat(noun).concat(plural)
}

/// Describes a stretch of activity in one sentence, from the counts of its
/// events by kind and the title of what was worked on (`document` where
/// there is none).
pub fn generate_local_summary(events: &[BufferedEvent], context_title: &Option<String>) -> (r: String)
    ensures
        r@ == summary_of(
            count_of(events@, EventType::Edit),
            count_of(events@, EventType::Browse),
            count_of(events@, EventType::Search),
            count_of(events@, EventType::Tool),
            count_of(events@, EventType::Save),
            title_or_default(*context_title),
        ),
{
    let edits = count_events(events, EventType::Edit);
    let visits = count_events(events, EventType::Browse);
    let searches = count_events(events, EventType::Search);
    let tools = count_events(events, EventType::Tool);
    let saves = count_events(events, EventType::Save);
    let title: &str = match context_title {
        Some(t) => t.as_str(),
        None => "document",
    };
    if edits == 0 && visits == 0 && searches == 0 && tools == 0 {
        return String::from_str("Brief activity on ").concat(title);
    }
    let mut text = String::new();
    if edits > 0 {
        let opening = if saves > 0 {
            "Edited and saved "
        } else {
            "Edited "
        };
        text = String::from_str(opening).concat(title);
    }
    if visits > 0 {
        if edits > 0 {
            let sites = counted_text(visits, "site");
            text = text.concat(" with ").concat(sites.as_str()).concat(" researched");
        } else {
            let sites = counted_text(visits, "site");
            text = String::from_str("Browsed ").concat(sites.as_str());
        }
    }
    if searches > 0 && edits == 0 && visits == 0 {
        let times = counted_text(searches, "time");
        text = String::from_str("Searched ").concat(times.as_str());
    }
    if tools > 0 {
        let uses = counted_text(tools, "tool");
        if edits == 0 && visits == 0 && searches == 0 {
            text = String::from_str("Used ").concat(uses.as_str());
        } else {
            text = text.concat(" using ").concat(uses.as_str());
        }
    }
    text
}

} // verus!

//! Reading the bot's settings: which are required, which have defaults, and
//! how the list of names to skip is written.
use vstd::prelude::*;

use crate::error::BotError;
use crate::state::opt_string_view;
use crate::text::{chars_of, lowercase, substring, to_lowercase, trim_bounds, trimmed};

verus! {

/// The LLM model asked where none is configured.
pub open spec fn default_model() -> Seq<char> {
    "qwen2.5-7b-instruct"@
}

/// The value of the required setting `name`; an error where it is not set.
pub fn require_var(name: &str, value: Option<String>) -> (r: Result<String, BotError>)
    ensures
        match value {
            Some(v) => r matches Ok(s) && s@ == v@,
            None => r matches Err(e) && (e matches BotError::Config(m) && m@ == name@
                + " not set"@),
        },
{
    match value {
        Some(v) => Ok(v),
        None => {
            let mut m = String::from_str(name);
            m.append(" not set");
            Err(BotError::Config(m))
        },
    }
}

/// The configured model, or the default one.
pub fn model_or_default(value: Option<String>) -> (model: String)
    ensures
        model@ == match value {
            Some(v) => v@,
            None => default_model(),
        },
{
    match value {
        Some(v) => v,
        None => String::from_str("qwen2.5-7b-instruct"),
    }
}

/// The pieces of `s` between commas (`str::split(',')`): one more than
/// there are commas, empty pieces included.
pub open spec fn comma_pieces(s: Seq<char>) -> Seq<Seq<char>>
    decreases s.len(),
{
    if s.len() == 0 {
        seq![Seq::empty()]
    } else {
        let pieces = comma_pieces(s.drop_last());
        if s.last() == ',' {
            pieces.push(Seq::empty())
        } else {
            pieces.update(pieces.len() - 1, pieces.last().push(s.last()))
        }
    }
}

/// A piece of the skip list as it is kept: trimmed and in lower case.
pub open spec fn skip_entry(piece: Seq<char>) -> Seq<char> {
    lowercase(trimmed(piece))
}

/// The names to skip, from a comma-separated list: each piece trimmed and
/// lowered, empty ones left out.
pub open spec fn skip_list(raw: Seq<char>) -> Seq<Seq<char>> {
    comma_pieces(raw).map_values(|p: Seq<char>| skip_entry(p)).filter(|e: Seq<char>| e.len() > 0)
}

fn keep_piece(out: &mut Vec<String>, piece: &str)
    ensures
        final(out)@.map_values(|s: String| s@) == if skip_entry(piece@).len() > 0 {
            old(out)@.map_values(|s: String| s@).push(skip_entry(piece@))
        } else {
            old(out)@.map_values(|s: String| s@)
        },
{
    let chars = chars_of(piece);
    let (first, end) = trim_bounds(chars.as_slice());
    let s = substring(piece, first, end);
    let low = to_lowercase(s.as_str());
    if !low.as_str().is_empty() {
        let ghost before = out@;
        out.push(low);
        assert(out@.map_values(|s: String| s@) =~= before.map_values(|s: String| s@).push(low@));
    }
}

/// Parses the comma-separated list of names to skip.
pub fn parse_skip_list(raw: &str) -> (names: Vec<String>)
    ensures
        names@.map_values(|s: String| s@) == skip_list(raw@),
{
    let chars = chars_of(raw);
    let ghost pred = |e: Seq<char>| e.len() > 0;
    let ghost entry = |p: Seq<char>| skip_entry(p);
    let mut out: Vec<String> = Vec::new();
    let mut start: usize = 0;
    let mut i: usize = 0;
    proof {
        assert(chars@.take(0) =~= Seq::<char>::empty());
        assert(chars@.subrange(0, 0) =~= comma_pieces(Seq::<char>::empty()).last());
        reveal_with_fuel(Seq::<_>::filter, 1);
        assert(comma_pieces(Seq::<char>::empty()).drop_last() =~= Seq::<Seq<char>>::empty());
        assert(Seq::<Seq<char>>::empty().map_values(entry).filter(pred) =~= Seq::<Seq<char>>::empty());
        assert(out@.map_values(|s: String| s@) =~= Seq::<Seq<char>>::empty());
    }
    while i < chars.len()
        invariant
            start <= i <= chars@.len(),
            chars@ == raw@,
            pred == (|e: Seq<char>| e.len() > 0),
            entry == (|p: Seq<char>| skip_entry(p)),
            comma_pieces(chars@.take(i as int)).len() >= 1,
            chars@.subrange(start as int, i as int) == comma_pieces(chars@.take(i as int)).last(),
            out@.map_values(|s: String| s@) == comma_pieces(chars@.take(i as int)).drop_last().map_values(
                entry,
            ).filter(pred),
        decreases chars@.len() - i,
    {
        let c = chars[i];
        let ghost pieces = comma_pieces(chars@.take(i as int));
        let ghost current = chars@.subrange(start as int, i as int);
        proof {
            assert(chars@.take(i + 1).drop_last() =~= chars@.take(i as int));
            assert(chars@.take(i + 1).last() == c);
        }
        if c == ',' {
            let piece = substring(raw, start, i);
            keep_piece(&mut out, piece.as_str());
            start = i + 1;
            proof {
                reveal_with_fuel(Seq::<_>::filter, 1);
                let next = pieces.push(Seq::empty());
                assert(next.drop_last() =~= pieces);
                assert(pieces =~= pieces.drop_last().push(pieces.last()));
                assert(pieces.map_values(entry) =~= pieces.drop_last().map_values(entry).push(
                    skip_entry(pieces.last()),
                ));
                assert(pieces.map_values(entry).drop_last() =~= pieces.drop_last().map_values(entry));
                assert(chars@.subrange(start as int, i + 1) =~= next.last());
            }
        } else {
            proof {
                let next = pieces.update(pieces.len() - 1, pieces.last().push(c));
                assert(next.drop_last() =~= pieces.drop_last());
                assert(chars@.subrange(start as int, i + 1) =~= current.push(c));
                assert(chars@.subrange(start as int, i + 1) =~= next.last());
            }
        }
        i = i + 1;
    }
    let piece = substring(raw, start, i);
    keep_piece(&mut out, piece.as_str());
    proof {
        reveal_with_fuel(Seq::<_>::filter, 1);
        let pieces = comma_pieces(chars@.take(i as int));
        assert(chars@.take(i as int) =~= raw@);
        assert(pieces.map_values(entry) =~= pieces.drop_last().map_values(entry).push(
            skip_entry(pieces.last()),
        ));
        assert(pieces.map_values(entry).drop_last() =~= pieces.drop_last().map_values(entry));
        assert(skip_list(raw@) == pieces.map_values(entry).filter(pred));
    }
    out
}

/// The settings as they were found, each `None` where it is not set.
pub struct RawSettings {
    pub telegram_token: Option<String>,
    pub lm_studio_url: Option<String>,
    pub home_assistant_url: Option<String>,
    pub home_assistant_token: Option<String>,
    pub whisper_url: Option<String>,
    pub database_url: Option<String>,
    pub system_prompt_extra: Option<String>,
    pub live_context_skip: Option<String>,
    pub llm_model: Option<String>,
}

/// The bot's settings (its sampling temperature aside).
pub struct Settings {
    pub telegram_token: String,
    pub lm_studio_url: String,
    pub home_assistant_url: String,
    pub home_assistant_token: String,
    pub whisper_url: String,
    pub database_url: String,
    /// Text added to the system prompt.
    pub system_prompt_extra: Option<String>,
    /// Names left out of live-context results.
    pub live_context_skip: Vec<String>,
    /// The LLM model asked for.
    pub llm_model: String,
}

/// The first required setting, in the order they are read, that is not
/// set; `None` where all of them are.
pub open spec fn first_missing(raw: RawSettings) -> Option<Seq<char>> {
    if raw.telegram_token is None {
        Some("TELEGRAM_TOKEN"@)
    } else if raw.lm_studio_url is None {
        Some("LM_STUDIO_URL"@)
    } else if raw.home_assistant_url is None {
        Some("HOME_ASSISTANT_URL"@)
    } else if raw.home_assistant_token is None {
        Some("HOME_ASSISTANT_TOKEN"@)
    } else if raw.whisper_url is None {
        Some("WHISPER_URL"@)
    } else if raw.database_url is None {
        Some("DATABASE_URL"@)
    } else {
        None
    }
}

/// The value of a setting, the empty text where it is not set.
pub open spec fn or_empty(value: Option<String>) -> Seq<char> {
    match value {
        Some(v) => v@,
        None => Seq::empty(),
    }
}

/// The settings from what was found: an error naming the first required
/// setting that is missing, else each required one as it was found, the
/// prompt text as it was found, the skip list parsed (an empty one where it
/// is not set) and the model or the default one.
pub fn settings_from(raw: RawSettings) -> (r: Result<Settings, BotError>)
    ensures
        match first_missing(raw) {
            Some(name) => r matches Err(e) && (e matches BotError::Config(m) && m@ == name
                + " not set"@),
            None => r matches Ok(s) && s.telegram_token@ == or_empty(raw.telegram_token)
                && s.lm_studio_url@ == or_empty(raw.lm_studio_url) && s.home_assistant_url@
                == or_empty(raw.home_assistant_url) && s.home_assistant_token@ == or_empty(
                raw.home_assistant_token,
            ) && s.whisper_url@ == or_empty(raw.whisper_url) && s.database_url@ == or_empty(
                raw.database_url,
            ) && opt_string_view(s.system_prompt_extra) == opt_string_view(raw.system_prompt_extra)
                && s.live_context_skip@.map_values(|v: String| v@) == skip_list(
                or_empty(raw.live_context_skip),
            ) && s.llm_model@ == match raw.llm_model {
                Some(v) => v@,
                None => default_model(),
            },
        },
{
    let telegram_token = match require_var("TELEGRAM_TOKEN", raw.telegram_token) {
        Ok(v) => v,
        Err(e) => return Err(e),
    };
    let lm_studio_url = match require_var("LM_STUDIO_URL", raw.lm_studio_url) {
        Ok(v) => v,
        Err(e) => return Err(e),
    };
    let home_assistant_url = match require_var("HOME_ASSISTANT_URL", raw.home_assistant_url) {
        Ok(v) => v,
        Err(e) => return Err(e),
    };
    let home_assistant_token = match require_var("HOME_ASSISTANT_TOKEN", raw.home_assistant_token) {
        Ok(v) => v,
        Err(e) => return Err(e),
    };
    let whisper_url = match require_var("WHISPER_URL", raw.whisper_url) {
        Ok(v) => v,
        Err(e) => return Err(e),
    };
    let database_url = match require_var("DATABASE_URL", raw.database_url) {
        Ok(v) => v,
        Err(e) => return Err(e),
    };
    let live_context_skip = match &raw.live_context_skip {
        Some(v) => parse_skip_list(v.as_str()),
        None => {
            proof {
                reveal_strlit("");
            }
            parse_skip_list("")
        },
    };
    Ok(Settings {
        telegram_token,
        lm_studio_url,
        home_assistant_url,
        home_assistant_token,
        whisper_url,
        database_url,
        system_prompt_extra: raw.system_prompt_extra,
        live_context_skip,
        llm_model: model_or_default(raw.llm_model),
    })
}

} // verus!

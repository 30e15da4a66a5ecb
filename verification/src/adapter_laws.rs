//! What the adapter does with the settings of a provider, said of the settings themselves.

use vstd::prelude::*;

use crate::claude::{
    auth_headers, auth_key, error_detail, header_texts, is_error_reply, is_switch_on,
    lowered, strategy_of, translated_error, Header, ProviderType,
};
use crate::json::{json_tree, JsonTree};
use crate::provider::{AuthStrategy, MetaModel, Provider, ProviderMeta, ProviderModel};
use crate::text::{
    ascii_lower, contains_text, is_ascii_text, is_white_space, lower_case, starts_with, trim_end_of,
    trim_start_of, trim_white, trim_white_end, trim_white_start,
};
use crate::url::{
    double_version, joined, lemma_double_is_single, lemma_single_has_no_double,
    lemma_single_unchanged, request_url, single_versions, version_segment,
};

verus! {

/// `tree` is an object that holds something under `key`.
pub open spec fn holds(tree: JsonTree, key: Seq<char>) -> bool {
    tree matches JsonTree::Object(entries) && entries.contains_key(key)
}

/// `tree` is an object that holds this text under `key`.
pub open spec fn holds_text(tree: JsonTree, key: Seq<char>, text: Seq<char>) -> bool {
    tree matches JsonTree::Object(entries) && entries.contains_key(key) && entries[key]
        == JsonTree::Text(text)
}

/// `tree` is an object whose `env` member is an object that holds this text under `key`.
pub open spec fn env_holds_text(tree: JsonTree, key: Seq<char>, text: Seq<char>) -> bool {
    tree matches JsonTree::Object(entries) && entries.contains_key("env"@) && holds_text(
        entries["env"@],
        key,
        text,
    )
}

/// `part` stands somewhere in `text`.
pub open spec fn occurs_in(part: Seq<char>, text: Seq<char>) -> bool {
    exists|before: Seq<char>, after: Seq<char>| text == #[trigger] (before + part + after)
}

/// `count` times the same character.
pub open spec fn run_of(c: char, count: nat) -> Seq<char> {
    Seq::new(count, |i: int| c)
}

/// The two ways to say that a text occurs in another.
proof fn lemma_occurs(part: Seq<char>, text: Seq<char>)
    ensures
        occurs_in(part, text) == contains_text(text, part),
{
    if occurs_in(part, text) {
        let (before, after) = choose|before: Seq<char>, after: Seq<char>|
            text == #[trigger] (before + part + after);
        let at = before.len() as int;
        assert(text.skip(at).take(part.len() as int) =~= part);
        assert(starts_with(text.skip(at), part));
    }
    if contains_text(text, part) {
        let at = choose|at: int|
            0 <= at <= text.len() && #[trigger] starts_with(text.skip(at), part);
        let before = text.take(at);
        let after = text.skip(at + part.len());
        assert(text.skip(at).take(part.len() as int) == part);
        assert forall|i: int| 0 <= i < part.len() implies part[i] == text[at + i] by {
            assert(text.skip(at).take(part.len() as int)[i] == text[at + i]);
        }
        assert(text =~= before + part + after);
    }
}

/// A text that ends in a run of a character, and not in a longer one, is trimmed to what stands
/// before the run.
proof fn lemma_trim_end_run(kept: Seq<char>, edge: char, count: nat)
    requires
        kept.len() > 0 ==> kept.last() != edge,
    ensures
        trim_end_of(kept + run_of(edge, count), edge) == kept,
    decreases count,
{
    let text = kept + run_of(edge, count);
    if count == 0 {
        assert(text =~= kept);
    } else {
        assert(text.last() == edge);
        assert(text.drop_last() =~= kept + run_of(edge, (count - 1) as nat));
        lemma_trim_end_run(kept, edge, (count - 1) as nat);
    }
}

/// A text that starts with a run of a character, and not with a longer one, is trimmed to what
/// stands after the run.
proof fn lemma_trim_start_run(kept: Seq<char>, edge: char, count: nat)
    requires
        kept.len() > 0 ==> kept[0] != edge,
    ensures
        trim_start_of(run_of(edge, count) + kept, edge) == kept,
    decreases count,
{
    let text = run_of(edge, count) + kept;
    if count == 0 {
        assert(text =~= kept);
    } else {
        assert(text[0] == edge);
        assert(text.skip(1) =~= run_of(edge, (count - 1) as nat) + kept);
        lemma_trim_start_run(kept, edge, (count - 1) as nat);
    }
}

/// The model of a provider holds what the provider holds, field by field.
pub proof fn law_model_is_the_provider(provider: Provider)
    ensures
        provider@.id == provider.id@,
        provider@.name == provider.name@,
        provider@.settings == json_tree(provider.settings_config),
        provider@.stream_include_usage == provider.stream_include_usage,
        provider.meta is None <==> provider@.meta is None,
        provider.meta matches Some(meta) ==> provider@.meta == Some(meta@),
{
}

/// The model of the meta data holds what the meta data hold, field by field.
pub proof fn law_meta_model_is_the_meta(meta: ProviderMeta)
    ensures
        meta.api_format is None <==> meta@.api_format is None,
        meta.api_format matches Some(text) ==> meta@.api_format == Some(text@),
        meta.provider_type is None <==> meta@.provider_type is None,
        meta.provider_type matches Some(text) ==> meta@.provider_type == Some(text@),
        meta.prompt_cache_key is None <==> meta@.prompt_cache_key is None,
        meta.prompt_cache_key matches Some(text) ==> meta@.prompt_cache_key == Some(text@),
{
}

/// The base URL `text` is written at this place of the settings: the places are tried from the
/// first to the last.
pub open spec fn base_url_written_at(settings: JsonTree, place: int, text: Seq<char>) -> bool {
    if place == 0 {
        env_holds_text(settings, "ANTHROPIC_BASE_URL"@, text)
    } else if place == 1 {
        holds_text(settings, "base_url"@, text)
    } else if place == 2 {
        holds_text(settings, "baseURL"@, text)
    } else {
        place == 3 && holds_text(settings, "apiEndpoint"@, text)
    }
}

/// The base URL in use is the text at the first place that holds one, without the slashes at its
/// end, whatever else the settings hold.
pub proof fn law_first_written_base_url_is_used(
    provider: ProviderModel,
    place: int,
    url: Seq<char>,
    slashes: nat,
)
    requires
        base_url_written_at(provider.settings, place, url + run_of('/', slashes)),
        url.len() > 0 ==> url.last() != '/',
        forall|earlier: int, text: Seq<char>|
            earlier < place ==> !#[trigger] base_url_written_at(provider.settings, earlier, text),
    ensures
        provider.base_url() == Some(url),
{
    let written = url + run_of('/', slashes);
    lemma_trim_end_run(url, '/', slashes);
    lemma_no_earlier_base_url(provider, place);
    assert(provider.written_base_url() == Some(written));
}

/// Nothing is written at the places before `place`.
proof fn lemma_no_earlier_base_url(provider: ProviderModel, place: int)
    requires
        forall|earlier: int, text: Seq<char>|
            earlier < place ==> !#[trigger] base_url_written_at(provider.settings, earlier, text),
    ensures
        place > 0 ==> provider.env_text("ANTHROPIC_BASE_URL"@) is None,
        place > 1 ==> provider.settings.member_text("base_url"@) is None,
        place > 2 ==> provider.settings.member_text("baseURL"@) is None,
        place > 3 ==> provider.settings.member_text("apiEndpoint"@) is None,
{
    if place > 0 {
        if let Some(text) = provider.env_text("ANTHROPIC_BASE_URL"@) {
            assert(base_url_written_at(provider.settings, 0, text));
        }
    }
    if place > 1 {
        if let Some(text) = provider.settings.member_text("base_url"@) {
            assert(base_url_written_at(provider.settings, 1, text));
        }
    }
    if place > 2 {
        if let Some(text) = provider.settings.member_text("baseURL"@) {
            assert(base_url_written_at(provider.settings, 2, text));
        }
    }
    if place > 3 {
        if let Some(text) = provider.settings.member_text("apiEndpoint"@) {
            assert(base_url_written_at(provider.settings, 3, text));
        }
    }
}

/// There is a base URL exactly if one of the four places holds a text.
pub proof fn law_base_url_exists_if_written(provider: ProviderModel)
    ensures
        provider.base_url() is Some <==> exists|place: int, text: Seq<char>|
            0 <= place < 4 && #[trigger] base_url_written_at(provider.settings, place, text),
{
    if provider.base_url() is None {
        assert forall|place: int, text: Seq<char>| 0 <= place < 4 implies !#[trigger]
            base_url_written_at(provider.settings, place, text) by {}
    } else {
        let text = provider.written_base_url()->0;
        assert(base_url_written_at(provider.settings, 0, text) || base_url_written_at(
            provider.settings,
            1,
            text,
        ) || base_url_written_at(provider.settings, 2, text) || base_url_written_at(
            provider.settings,
            3,
            text,
        ));
    }
}

/// The key `text` is written at this place of the `env` block: the places are tried from the
/// first to the last.
pub open spec fn env_key_written_at(settings: JsonTree, place: int, text: Seq<char>) -> bool {
    if place == 0 {
        env_holds_text(settings, "ANTHROPIC_AUTH_TOKEN"@, text)
    } else if place == 1 {
        env_holds_text(settings, "ANTHROPIC_API_KEY"@, text)
    } else if place == 2 {
        env_holds_text(settings, "OPENROUTER_API_KEY"@, text)
    } else {
        place == 3 && env_holds_text(settings, "OPENAI_API_KEY"@, text)
    }
}

/// The `env` block holds no key that is not empty at a place before `place`.
pub open spec fn no_env_key_before(settings: JsonTree, place: int) -> bool {
    forall|earlier: int, text: Seq<char>|
        earlier < place && text.len() > 0 ==> !#[trigger] env_key_written_at(
            settings,
            earlier,
            text,
        )
}

/// The key is the first text of the `env` block that is not empty, whatever else the settings
/// hold: a place that is missing, empty or no text is passed over.
pub proof fn law_first_env_key_is_used(provider: ProviderModel, place: int, key: Seq<char>)
    requires
        env_key_written_at(provider.settings, place, key),
        key.len() > 0,
        no_env_key_before(provider.settings, place),
    ensures
        provider.api_key() == Some(key),
{
    lemma_no_earlier_env_key(provider, place);
}

/// No key is found at the places before `place`.
proof fn lemma_no_earlier_env_key(provider: ProviderModel, place: int)
    requires
        no_env_key_before(provider.settings, place),
    ensures
        place > 0 ==> (provider.env_text("ANTHROPIC_AUTH_TOKEN"@) matches Some(text) ==> text.len()
            == 0),
        place > 1 ==> (provider.env_text("ANTHROPIC_API_KEY"@) matches Some(text) ==> text.len()
            == 0),
        place > 2 ==> (provider.env_text("OPENROUTER_API_KEY"@) matches Some(text) ==> text.len()
            == 0),
        place > 3 ==> (provider.env_text("OPENAI_API_KEY"@) matches Some(text) ==> text.len() == 0),
{
    if place > 0 {
        if let Some(text) = provider.env_text("ANTHROPIC_AUTH_TOKEN"@) {
            assert(env_key_written_at(provider.settings, 0, text));
        }
    }
    if place > 1 {
        if let Some(text) = provider.env_text("ANTHROPIC_API_KEY"@) {
            assert(env_key_written_at(provider.settings, 1, text));
        }
    }
    if place > 2 {
        if let Some(text) = provider.env_text("OPENROUTER_API_KEY"@) {
            assert(env_key_written_at(provider.settings, 2, text));
        }
    }
    if place > 3 {
        if let Some(text) = provider.env_text("OPENAI_API_KEY"@) {
            assert(env_key_written_at(provider.settings, 3, text));
        }
    }
}

/// Where the `env` block gives no key, the text under `apiKey` is the key; `api_key` counts only
/// where there is no `apiKey` of any sort. An empty text is no key.
pub proof fn law_key_outside_env(provider: ProviderModel, text: Seq<char>)
    requires
        no_env_key_before(provider.settings, 4),
    ensures
        holds_text(provider.settings, "apiKey"@, text) ==> provider.api_key() == (if text.len()
            > 0 {
            Some(text)
        } else {
            None
        }),
        !holds(provider.settings, "apiKey"@) && holds_text(provider.settings, "api_key"@, text)
            ==> provider.api_key() == (if text.len() > 0 {
            Some(text)
        } else {
            None
        }),
        holds(provider.settings, "apiKey"@) && (forall|any: Seq<char>|
            !#[trigger] holds_text(provider.settings, "apiKey"@, any)) ==> provider.api_key()
            is None,
        !holds(provider.settings, "apiKey"@) && (forall|any: Seq<char>|
            !#[trigger] holds_text(provider.settings, "api_key"@, any)) ==> provider.api_key()
            is None,
{
    lemma_no_earlier_env_key(provider, 4);
    if let Some(found) = provider.settings.member_text("apiKey"@) {
        assert(holds_text(provider.settings, "apiKey"@, found));
    }
    if let Some(found) = provider.settings.member_text("api_key"@) {
        assert(holds_text(provider.settings, "api_key"@, found));
    }
}

/// A provider is GitHub Copilot exactly if its meta data say so or the base URL in use holds the
/// host of GitHub Copilot; of the others it is OpenRouter exactly if the base URL in use holds the
/// host of OpenRouter; of the rest it authenticates by bearer alone exactly if one of the two
/// settings says so.
pub proof fn law_kind_of_provider(provider: ProviderModel)
    ensures
        ({
            let copilot = {
                ||| provider.meta matches Some(meta) && meta.provider_type == Some(
                    "github_copilot"@,
                )
                ||| provider.base_url() matches Some(url) && occurs_in("githubcopilot.com"@, url)
            };
            let openrouter = provider.base_url() matches Some(url) && occurs_in(
                "openrouter.ai"@,
                url,
            );
            let bearer = {
                ||| holds_text(provider.settings, "auth_mode"@, "bearer_only"@)
                ||| env_holds_text(provider.settings, "AUTH_MODE"@, "bearer_only"@)
            };
            &&& provider.kind() == ProviderType::GitHubCopilot <==> copilot
            &&& provider.kind() == ProviderType::OpenRouter <==> !copilot && openrouter
            &&& provider.kind() == ProviderType::ClaudeAuth <==> !copilot && !openrouter && bearer
            &&& provider.kind() == ProviderType::Claude <==> !copilot && !openrouter && !bearer
            &&& provider.is_github_copilot() <==> copilot
        }),
{
    if let Some(url) = provider.base_url() {
        lemma_occurs("githubcopilot.com"@, url);
        lemma_occurs("openrouter.ai"@, url);
    }
}

/// Of two providers that are not GitHub Copilot and whose base URL in use is the same, either both
/// are OpenRouter or neither is, wherever in the settings the base URL is written.
pub proof fn law_same_base_url_same_host(one: ProviderModel, other: ProviderModel)
    requires
        one.kind() != ProviderType::GitHubCopilot,
        other.kind() != ProviderType::GitHubCopilot,
        one.base_url() == other.base_url(),
    ensures
        one.kind() == ProviderType::OpenRouter <==> other.kind() == ProviderType::OpenRouter,
{
    law_kind_of_provider(one);
    law_kind_of_provider(other);
}

/// Each kind of provider has its own strategy.
pub proof fn law_strategy_of_each_kind()
    ensures
        strategy_of(ProviderType::GitHubCopilot) == AuthStrategy::GitHubCopilot,
        strategy_of(ProviderType::OpenRouter) == AuthStrategy::Bearer,
        strategy_of(ProviderType::ClaudeAuth) == AuthStrategy::ClaudeAuth,
        strategy_of(ProviderType::Claude) == AuthStrategy::Anthropic,
{
}

/// GitHub Copilot is authenticated by a placeholder, whatever keys are configured; every other
/// provider by its configured key, and not at all without one.
pub proof fn law_key_of_each_kind(provider: ProviderModel)
    ensures
        provider.kind() == ProviderType::GitHubCopilot ==> auth_key(provider) == Some(
            "copilot_placeholder"@,
        ),
        provider.kind() != ProviderType::GitHubCopilot ==> auth_key(provider) == provider.api_key(),
{
}

/// `format` is what the name `name` stands for.
pub open spec fn is_format_of(name: Seq<char>, format: Seq<char>) -> bool {
    &&& name == "openai_chat"@ ==> format == "openai_chat"@
    &&& name == "openai_responses"@ ==> format == "openai_responses"@
    &&& name != "openai_chat"@ && name != "openai_responses"@ ==> format == "anthropic"@
}

/// A format name in the meta data decides, and where there is none a format name in the settings
/// does; either way the name stands for the same format.
pub proof fn law_format_name_decides(provider: ProviderModel, name: Seq<char>)
    ensures
        (provider.meta matches Some(meta) && meta.api_format == Some(name)) ==> is_format_of(
            name,
            provider.api_format(),
        ),
        (provider.meta matches Some(meta) ==> meta.api_format is None) && holds_text(
            provider.settings,
            "api_format"@,
            name,
        ) ==> is_format_of(name, provider.api_format()),
{
}

/// No format name is written, neither in the meta data nor in the settings.
pub open spec fn names_no_format(provider: ProviderModel) -> bool {
    &&& provider.meta matches Some(meta) ==> meta.api_format is None
    &&& forall|name: Seq<char>| !#[trigger] holds_text(provider.settings, "api_format"@, name)
}

/// `core` is the word `true`, in small or capital letters, or the digit `1`.
pub open spec fn spells_on(core: Seq<char>) -> bool {
    ||| core == seq!['1']
    ||| {
        &&& core.len() == 4
        &&& core[0] == 't' || core[0] == 'T'
        &&& core[1] == 'r' || core[1] == 'R'
        &&& core[2] == 'u' || core[2] == 'U'
        &&& core[3] == 'e' || core[3] == 'E'
    }
}

/// Every character of `text` is white space.
pub open spec fn all_white(text: Seq<char>) -> bool {
    forall|i: int| 0 <= i < text.len() ==> is_white_space(#[trigger] text[i])
}

/// Trimming takes away white space alone.
proof fn lemma_trim_parts(text: Seq<char>) -> (parts: (Seq<char>, Seq<char>))
    ensures
        all_white(parts.0),
        all_white(parts.1),
        text == parts.0 + trim_white(text) + parts.1,
{
    let left = lemma_trim_start_part(text);
    let right = lemma_trim_end_part(trim_white_start(text));
    assert(text =~= left + trim_white(text) + right);
    (left, right)
}

proof fn lemma_trim_start_part(text: Seq<char>) -> (left: Seq<char>)
    ensures
        all_white(left),
        text == left + trim_white_start(text),
    decreases text.len(),
{
    if text.len() > 0 && is_white_space(text[0]) {
        let rest = lemma_trim_start_part(text.skip(1));
        let left = seq![text[0]] + rest;
        assert forall|i: int| 0 <= i < left.len() implies is_white_space(#[trigger] left[i]) by {
            if i > 0 {
                assert(left[i] == rest[i - 1]);
            }
        }
        assert(text =~= seq![text[0]] + text.skip(1));
        assert(text =~= left + trim_white_start(text));
        left
    } else {
        assert(text =~= Seq::<char>::empty() + text);
        Seq::empty()
    }
}

proof fn lemma_trim_end_part(text: Seq<char>) -> (right: Seq<char>)
    ensures
        all_white(right),
        text == trim_white_end(text) + right,
    decreases text.len(),
{
    if text.len() > 0 && is_white_space(text.last()) {
        let rest = lemma_trim_end_part(text.drop_last());
        let right = rest.push(text.last());
        assert forall|i: int| 0 <= i < right.len() implies is_white_space(#[trigger] right[i]) by {
            if i < rest.len() {
                assert(right[i] == rest[i]);
            }
        }
        assert(text =~= text.drop_last().push(text.last()));
        assert(text =~= trim_white_end(text) + right);
        right
    } else {
        assert(text =~= text + Seq::<char>::empty());
        Seq::empty()
    }
}

/// White space round a text that neither starts nor ends with any is trimmed away.
proof fn lemma_trim_around(left: Seq<char>, core: Seq<char>, right: Seq<char>)
    requires
        all_white(left),
        all_white(right),
        core.len() > 0,
        !is_white_space(core[0]),
        !is_white_space(core.last()),
    ensures
        trim_white(left + core + right) == core,
{
    lemma_trim_left(left, core + right);
    assert(left + core + right =~= left + (core + right));
    lemma_trim_right(core, right);
}

proof fn lemma_trim_left(left: Seq<char>, rest: Seq<char>)
    requires
        all_white(left),
        rest.len() > 0,
        !is_white_space(rest[0]),
    ensures
        trim_white_start(left + rest) == rest,
    decreases left.len(),
{
    let text = left + rest;
    if left.len() == 0 {
        assert(text =~= rest);
    } else {
        assert(is_white_space(left[0]));
        assert(text.skip(1) =~= left.skip(1) + rest);
        assert forall|i: int| 0 <= i < left.skip(1).len() implies is_white_space(
            #[trigger] left.skip(1)[i],
        ) by {
            assert(is_white_space(left[i + 1]));
        }
        lemma_trim_left(left.skip(1), rest);
    }
}

proof fn lemma_trim_right(rest: Seq<char>, right: Seq<char>)
    requires
        all_white(right),
        rest.len() > 0,
        !is_white_space(rest.last()),
    ensures
        trim_white_end(rest + right) == rest,
    decreases right.len(),
{
    let text = rest + right;
    if right.len() == 0 {
        assert(text =~= rest);
    } else {
        assert(is_white_space(right[right.len() - 1]));
        assert(text.drop_last() =~= rest + right.drop_last());
        assert forall|i: int| 0 <= i < right.drop_last().len() implies is_white_space(
            #[trigger] right.drop_last()[i],
        ) by {
            assert(is_white_space(right[i]));
        }
        lemma_trim_right(rest, right.drop_last());
    }
}

/// In lower case, an ASCII text means "on" exactly if it spells so.
proof fn lemma_spells_on(core: Seq<char>)
    ensures
        spells_on(core) ==> is_ascii_text(core) && core.len() > 0 && !is_white_space(core[0])
            && !is_white_space(core.last()),
        is_ascii_text(core) ==> (is_switch_on(lowered(core)) <==> spells_on(core)),
{
    reveal_strlit("true");
    reveal_strlit("1");
    let low = core.map_values(|c: char| ascii_lower(c));
    if spells_on(core) {
        if core.len() == 4 {
            assert(low =~= "true"@);
        } else {
            assert(low =~= "1"@);
        }
    }
    assert(low.len() == core.len());
    if low == "true"@ {
        assert("true"@.len() == 4);
        assert(low[0] == 't' && low[1] == 'r' && low[2] == 'u' && low[3] == 'e');
        assert(low[0] == ascii_lower(core[0]) && low[1] == ascii_lower(core[1]));
        assert(low[2] == ascii_lower(core[2]) && low[3] == ascii_lower(core[3]));
    }
    if low == "1"@ {
        assert("1"@.len() == 1);
        assert(low[0] == '1');
        assert(low[0] == ascii_lower(core[0]));
        assert(core =~= seq!['1']);
    }
}

/// Where no format name is written, the compatibility switch decides between the two formats: a
/// boolean by its value, an integer by not being zero, a text by spelling "on" between white
/// space; any other value, and a missing one, leaves it off.
pub proof fn law_compatibility_switch_decides(provider: ProviderModel, value: JsonTree)
    requires
        names_no_format(provider),
    ensures
        !holds(provider.settings, "openrouter_compat_mode"@) ==> provider.api_format()
            == "anthropic"@,
        (provider.settings matches JsonTree::Object(entries) && entries.contains_key(
            "openrouter_compat_mode"@,
        ) && entries["openrouter_compat_mode"@] == value) ==> {
            &&& value == JsonTree::Bool(true) ==> provider.api_format() == "openai_chat"@
            &&& value == JsonTree::Bool(false) ==> provider.api_format() == "anthropic"@
            &&& value matches JsonTree::Number(Some(n)) ==> provider.api_format() == (if n != 0 {
                "openai_chat"@
            } else {
                "anthropic"@
            })
            &&& value == JsonTree::Number(None) ==> provider.api_format() == "anthropic"@
            &&& (value is Null || value is Array || value is Object) ==> provider.api_format()
                == "anthropic"@
        },
{
    if let Some(name) = provider.settings.member_text("api_format"@) {
        assert(holds_text(provider.settings, "api_format"@, name));
    }
}

/// Where no format name is written and the compatibility switch is a text, white space round it
/// does not matter: what stands between decides, and switches on if it is the word `true`, in
/// small or capital letters, or the digit `1`. No other ASCII text does, and any other text does
/// exactly if its lower case is one of the two.
pub proof fn law_compatibility_text_decides(
    provider: ProviderModel,
    left: Seq<char>,
    core: Seq<char>,
    right: Seq<char>,
)
    requires
        names_no_format(provider),
        holds_text(provider.settings, "openrouter_compat_mode"@, left + core + right),
        all_white(left),
        all_white(right),
    ensures
        spells_on(core) ==> provider.api_format() == "openai_chat"@,
        !spells_on(core) && is_ascii_text(core) && (core.len() > 0 ==> !is_white_space(core[0])
            && !is_white_space(core.last())) ==> provider.api_format() == "anthropic"@,
        !is_ascii_text(core) && !is_white_space(core[0]) && !is_white_space(core.last())
            ==> provider.api_format() == (if lower_case(core) == "true"@ || lower_case(core)
            == "1"@ {
            "openai_chat"@
        } else {
            "anthropic"@
        }),
{
    if let Some(name) = provider.settings.member_text("api_format"@) {
        assert(holds_text(provider.settings, "api_format"@, name));
    }
    let text = left + core + right;
    lemma_spells_on(core);
    if core.len() > 0 && !is_white_space(core[0]) && !is_white_space(core.last()) {
        lemma_trim_around(left, core, right);
    } else if core.len() == 0 {
        let parts = lemma_trim_parts(text);
        let trimmed = trim_white(text);
        if trimmed.len() > 0 {
            lemma_trimmed_edges(text);
            assert(text[parts.0.len() as int] == trimmed[0]);
            let at = parts.0.len() as int;
            if at < left.len() {
                assert(is_white_space(left[at]));
            } else {
                assert(text[at] == right[at - left.len()]);
                assert(is_white_space(right[at - left.len()]));
            }
        }
        assert(trimmed =~= Seq::empty());
        lemma_spells_on(trimmed);
    }
}

/// A trimmed text does not start with white space.
proof fn lemma_trimmed_edges(text: Seq<char>)
    ensures
        trim_white(text).len() > 0 ==> !is_white_space(trim_white(text)[0]),
{
    lemma_start_edge(text);
    let started = trim_white_start(text);
    let right = lemma_trim_end_part(started);
    if trim_white(text).len() > 0 {
        assert(started[0] == trim_white(text)[0]);
    }
}

proof fn lemma_start_edge(text: Seq<char>)
    ensures
        trim_white_start(text).len() > 0 ==> !is_white_space(trim_white_start(text)[0]),
    decreases text.len(),
{
    if text.len() > 0 && is_white_space(text[0]) {
        lemma_start_edge(text.skip(1));
    }
}

/// Bodies are rewritten exactly for GitHub Copilot and for the two OpenAI formats.
pub proof fn law_transform_is_needed(provider: ProviderModel)
    ensures
        provider.needs_transform() <==> {
            ||| provider.kind() == ProviderType::GitHubCopilot
            ||| provider.api_format() == "openai_chat"@
            ||| provider.api_format() == "openai_responses"@
        },
{
}

/// The prompt cache key that is set is the one in use, and where none is set the identifier is,
/// whatever the format, the settings and the rest of the provider are.
pub proof fn law_cache_key_in_use(provider: ProviderModel, key: Seq<char>)
    ensures
        (provider.meta matches Some(meta) && meta.prompt_cache_key == Some(key))
            ==> provider.cache_key() == key,
        (provider.meta matches Some(meta) ==> meta.prompt_cache_key is None)
            ==> provider.cache_key() == provider.id,
{
}

/// The cache key depends neither on the settings nor on the format.
pub proof fn law_cache_key_ignores_the_format(
    provider: ProviderModel,
    settings: JsonTree,
    meta: MetaModel,
)
    requires
        provider.meta matches Some(own) && own.prompt_cache_key == meta.prompt_cache_key,
    ensures
        (ProviderModel { settings, meta: Some(meta), ..provider }).cache_key()
            == provider.cache_key(),
{
}

/// The headers of each strategy, one by one.
pub proof fn law_headers_of_each_strategy(key: Seq<char>, strategy: AuthStrategy)
    ensures
        auth_headers(strategy, key)[0].0 == "Authorization"@,
        auth_headers(strategy, key)[0].1 == "Bearer "@ + key,
        strategy == AuthStrategy::Anthropic ==> auth_headers(strategy, key).len() == 2
            && auth_headers(strategy, key)[1] == ("x-api-key"@, key),
        strategy == AuthStrategy::GitHubCopilot ==> {
            &&& auth_headers(strategy, key).len() == 4
            &&& auth_headers(strategy, key)[1] == ("Editor-Version"@, "vscode/1.85.0"@)
            &&& auth_headers(strategy, key)[2] == ("Editor-Plugin-Version"@, "copilot/1.150.0"@)
            &&& auth_headers(strategy, key)[3] == ("Copilot-Integration-Id"@, "vscode-chat"@)
        },
        strategy != AuthStrategy::Anthropic && strategy != AuthStrategy::GitHubCopilot
            ==> auth_headers(strategy, key).len() == 1,
{
}

/// The texts of a list of headers are those of each header, in order.
pub proof fn law_header_texts_are_the_headers(headers: Seq<Header>, at: int)
    requires
        0 <= at < headers.len(),
    ensures
        header_texts(headers).len() == headers.len(),
        header_texts(headers)[at].0 == headers[at].0@,
        header_texts(headers)[at].1 == headers[at].1@,
{
}

/// A reply is an error report exactly if it holds an error and neither sort of answer.
pub proof fn law_error_reply(body: JsonTree)
    ensures
        is_error_reply(body) <==> holds(body, "error"@) && !holds(body, "choices"@) && !holds(
            body,
            "output"@,
        ),
{
}

/// `body` reports an error that holds this text under `key`.
pub open spec fn error_holds_text(body: JsonTree, key: Seq<char>, text: Seq<char>) -> bool {
    body matches JsonTree::Object(entries) && entries.contains_key("error"@) && holds_text(
        entries["error"@],
        key,
        text,
    )
}

/// `detail` is an object with a type and a message, which are these texts, and nothing else.
pub open spec fn is_detail(detail: JsonTree, kind: Seq<char>, message: Seq<char>) -> bool {
    detail matches JsonTree::Object(members) && members.dom() == set!["type"@, "message"@]
        && members["type"@] == JsonTree::Text(kind) && members["message"@] == JsonTree::Text(
        message,
    )
}

/// `report` is an object that is marked as an error and holds its detail, and nothing else.
pub open spec fn is_report(report: JsonTree, kind: Seq<char>, message: Seq<char>) -> bool {
    report matches JsonTree::Object(members) && members.dom() == set!["type"@, "error"@]
        && members["type"@] == JsonTree::Text("error"@) && is_detail(
        members["error"@],
        kind,
        message,
    )
}

/// A translated error carries the type and the message of the upstream error, each of them where
/// it is a text, and else a fixed text in its place.
pub proof fn law_error_is_translated(body: JsonTree)
    ensures
        forall|kind: Seq<char>, message: Seq<char>|
            #![trigger is_report(translated_error(body), kind, message)]
            is_report(translated_error(body), kind, message) <==> {
                &&& error_holds_text(body, "type"@, kind) || (kind == "invalid_request_error"@
                    && forall|any: Seq<char>| !#[trigger] error_holds_text(body, "type"@, any))
                &&& error_holds_text(body, "message"@, message) || (message == "Upstream error"@
                    && forall|any: Seq<char>| !#[trigger] error_holds_text(body, "message"@, any))
            },
        exists|kind: Seq<char>, message: Seq<char>|
            is_report(translated_error(body), kind, message),
{
    reveal_strlit("type");
    reveal_strlit("error");
    reveal_strlit("message");
    assert("type"@.len() != "error"@.len());
    assert("type"@.len() != "message"@.len());
    let own_kind = error_detail(body, "type"@, "invalid_request_error"@);
    let own_message = error_detail(body, "message"@, "Upstream error"@);
    let report = translated_error(body);
    assert(report->Object_0.dom() =~= set!["type"@, "error"@]);
    assert(report->Object_0["error"@]->Object_0.dom() =~= set!["type"@, "message"@]);
    assert(is_report(report, own_kind, own_message));
    lemma_error_detail(body, "type"@, "invalid_request_error"@);
    lemma_error_detail(body, "message"@, "Upstream error"@);
}

/// What a detail of an error is.
proof fn lemma_error_detail(body: JsonTree, key: Seq<char>, fallback: Seq<char>)
    ensures
        forall|text: Seq<char>|
            text == error_detail(body, key, fallback) <==> (#[trigger] error_holds_text(
                body,
                key,
                text,
            ) || (text == fallback && forall|any: Seq<char>|
                !#[trigger] error_holds_text(body, key, any))),
{
    let found = error_detail(body, key, fallback);
    if exists|any: Seq<char>| #[trigger] error_holds_text(body, key, any) {
        let any = choose|any: Seq<char>| #[trigger] error_holds_text(body, key, any);
        assert(found == any);
    } else {
        assert(!error_holds_text(body, key, found));
    }
}

/// The URL of a request is the base without the slashes at its end, a slash, and the endpoint
/// without the slashes at its start, with runs of version segments collapsed; the beta mark
/// follows exactly for the messages interface, without a chat path and without a query.
pub proof fn law_parts_of_url(
    base: Seq<char>,
    base_slashes: nat,
    endpoint: Seq<char>,
    endpoint_slashes: nat,
)
    requires
        base.len() > 0 ==> base.last() != '/',
        endpoint.len() > 0 ==> endpoint[0] != '/',
    ensures
        ({
            let given = run_of('/', endpoint_slashes) + endpoint;
            let beta = occurs_in("/v1/messages"@, given) && !occurs_in(
                "/v1/chat/completions"@,
                given,
            ) && !given.contains('?');
            request_url(base + run_of('/', base_slashes), given) == single_versions(
                base + seq!['/'] + endpoint,
            ) + (if beta {
                "?beta=true"@
            } else {
                Seq::empty()
            })
        }),
{
    let given = run_of('/', endpoint_slashes) + endpoint;
    lemma_trim_end_run(base, '/', base_slashes);
    lemma_trim_start_run(endpoint, '/', endpoint_slashes);
    lemma_occurs("/v1/messages"@, given);
    lemma_occurs("/v1/chat/completions"@, given);
    let url = single_versions(base + seq!['/'] + endpoint);
    assert(joined(base + run_of('/', base_slashes), given) == base + seq!['/'] + endpoint);
    assert(url + Seq::<char>::empty() =~= url);
}

/// Collapsing is what replacing a doubled version segment by a single one leads to: it makes no
/// difference whether a segment is doubled, a text without a doubled segment stays as it is, and
/// what comes out has none.
pub proof fn law_collapsing(url: Seq<char>, before: Seq<char>, after: Seq<char>)
    ensures
        single_versions(before + "/v1/v1"@ + after) == single_versions(before + "/v1"@ + after),
        !occurs_in("/v1/v1"@, url) ==> single_versions(url) == url,
        !occurs_in("/v1/v1"@, single_versions(url)),
{
    reveal_strlit("/v1");
    reveal_strlit("/v1/v1");
    assert("/v1"@ =~= version_segment());
    assert("/v1/v1"@ =~= double_version());
    lemma_double_is_single(before, after);
    lemma_occurs("/v1/v1"@, url);
    lemma_occurs("/v1/v1"@, single_versions(url));
    lemma_single_has_no_double(url);
    if !occurs_in("/v1/v1"@, url) {
        lemma_single_unchanged(url);
    }
}

} // verus!

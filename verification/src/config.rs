//! The configuration of the tool: the networks, wallet, governance, bridgehub
//! and databases it talks to, where the configuration files live, and how an
//! existing configuration is edited from command-line options.

use vstd::prelude::*;
use crate::text::{occurs_at, remove_all, remove_all_exec};

verus! {

/// The URLs and chain ids of the two networks.
#[derive(Clone, Debug)]
pub struct NetworkConfig {
    pub l1_rpc_url: Option<String>,
    pub l1_chain_id: Option<u64>,
    pub l1_explorer_url: Option<String>,
    pub l2_rpc_url: String,
    pub l2_chain_id: Option<u64>,
    pub l2_explorer_url: Option<String>,
}

/// The wallet the tool signs with: its 20-byte address and private key.
#[derive(Clone, Debug)]
pub struct WalletConfig {
    pub address: [u8; 20],
    pub private_key: String,
}

/// The governance contract's address and its owner's private key.
#[derive(Clone, Debug)]
pub struct GovernanceConfig {
    pub address: [u8; 20],
    pub owner_private_key: String,
}

/// The private keys of the bridgehub's admin and owner.
#[derive(Clone, Debug)]
pub struct BridgehubConfig {
    pub admin_private_key: Option<String>,
    pub owner_private_key: Option<String>,
}

/// A database, by its connection URL.
#[derive(Clone, Debug)]
pub struct Database {
    pub url: String,
}

/// The server and prover databases.
#[derive(Clone, Debug)]
pub struct DatabaseConfig {
    pub server: Database,
    pub prover: Database,
}

/// A whole configuration, as one configuration file holds it.
#[derive(Clone, Debug)]
pub struct ZKSyncConfig {
    pub network: NetworkConfig,
    pub wallet: Option<WalletConfig>,
    pub db: Option<DatabaseConfig>,
    pub governance: GovernanceConfig,
    pub bridgehub: BridgehubConfig,
}

/// The values given on the command line to edit a configuration; each that
/// is given replaces the configuration's own.
#[derive(Clone, Debug)]
pub struct EditConfigOpts {
    pub l1_rpc_url: Option<String>,
    pub l2_rpc_url: Option<String>,
    pub l2_explorer_url: Option<String>,
    pub l1_explorer_url: Option<String>,
    pub private_key: Option<String>,
    pub address: Option<[u8; 20]>,
    pub governance: Option<[u8; 20]>,
    pub governance_owner: Option<String>,
    pub bridgehub_admin: Option<String>,
    pub bridgehub_owner: Option<String>,
}

/// The given value if there is one, else the existing optional one.
pub open spec fn given_or<T>(given: Option<T>, existing: Option<T>) -> Option<T> {
    match given {
        Some(v) => Some(v),
        None => existing,
    }
}

/// The given value if there is one, else the existing one.
pub open spec fn given_or_keep<T>(given: Option<T>, existing: T) -> T {
    match given {
        Some(v) => v,
        None => existing,
    }
}

/// The configuration that editing `existing` with `opts` gives: every
/// option that is given replaces its field; the chain ids and the databases
/// are not carried over; a wallet is edited only where one exists.
pub open spec fn edited_config(existing: ZKSyncConfig, opts: EditConfigOpts) -> ZKSyncConfig {
    ZKSyncConfig {
        network: NetworkConfig {
            l1_rpc_url: given_or(opts.l1_rpc_url, existing.network.l1_rpc_url),
            l1_chain_id: None,
            l1_explorer_url: given_or(opts.l1_explorer_url, existing.network.l1_explorer_url),
            l2_rpc_url: given_or_keep(opts.l2_rpc_url, existing.network.l2_rpc_url),
            l2_chain_id: None,
            l2_explorer_url: given_or(opts.l2_explorer_url, existing.network.l2_explorer_url),
        },
        wallet: match existing.wallet {
            Some(w) => Some(
                WalletConfig {
                    address: given_or_keep(opts.address, w.address),
                    private_key: given_or_keep(opts.private_key, w.private_key),
                },
            ),
            None => None,
        },
        db: None,
        governance: GovernanceConfig {
            address: given_or_keep(opts.governance, existing.governance.address),
            owner_private_key: given_or_keep(
                opts.governance_owner,
                existing.governance.owner_private_key,
            ),
        },
        bridgehub: BridgehubConfig {
            admin_private_key: given_or(opts.bridgehub_admin, existing.bridgehub.admin_private_key),
            owner_private_key: given_or(opts.bridgehub_owner, existing.bridgehub.owner_private_key),
        },
    }
}

fn or_existing<T>(given: Option<T>, existing: Option<T>) -> (r: Option<T>)
    ensures
        r == given_or(given, existing),
{
    match given {
        Some(v) => Some(v),
        None => existing,
    }
}

fn or_keep<T>(given: Option<T>, existing: T) -> (r: T)
    ensures
        r == given_or_keep(given, existing),
{
    match given {
        Some(v) => v,
        None => existing,
    }
}

/// Edits an existing configuration with the values given on the command
/// line.
pub fn edit_existing_config_non_interactively(
    existing_config: ZKSyncConfig,
    opts: EditConfigOpts,
) -> (r: ZKSyncConfig)
    ensures
        r == edited_config(existing_config, opts),
{
    let ZKSyncConfig { network, wallet, db: _, governance, bridgehub } = existing_config;
    let EditConfigOpts {
        l1_rpc_url,
        l2_rpc_url,
        l2_explorer_url,
        l1_explorer_url,
        private_key,
        address,
        governance: governance_address,
        governance_owner,
        bridgehub_admin,
        bridgehub_owner,
    } = opts;
    let wallet = match wallet {
        Some(existing_wallet_config) => Some(
            WalletConfig {
                address: or_keep(address, existing_wallet_config.address),
                private_key: or_keep(private_key, existing_wallet_config.private_key),
            },
        ),
        None => None,
    };
    ZKSyncConfig {
        network: NetworkConfig {
            l1_rpc_url: or_existing(l1_rpc_url, network.l1_rpc_url),
            l1_chain_id: None,
            l1_explorer_url: or_existing(l1_explorer_url, network.l1_explorer_url),
            l2_rpc_url: or_keep(l2_rpc_url, network.l2_rpc_url),
            l2_chain_id: None,
            l2_explorer_url: or_existing(l2_explorer_url, network.l2_explorer_url),
        },
        wallet,
        db: None,
        governance: GovernanceConfig {
            address: or_keep(governance_address, governance.address),
            owner_private_key: or_keep(governance_owner, governance.owner_private_key),
        },
        bridgehub: BridgehubConfig {
            admin_private_key: or_existing(bridgehub_admin, bridgehub.admin_private_key),
            owner_private_key: or_existing(bridgehub_owner, bridgehub.owner_private_key),
        },
    }
}

/// Options that change nothing.
pub open spec fn no_edits(opts: EditConfigOpts) -> bool {
    &&& opts.l1_rpc_url is None
    &&& opts.l2_rpc_url is None
    &&& opts.l2_explorer_url is None
    &&& opts.l1_explorer_url is None
    &&& opts.private_key is None
    &&& opts.address is None
    &&& opts.governance is None
    &&& opts.governance_owner is None
    &&& opts.bridgehub_admin is None
    &&& opts.bridgehub_owner is None
}

/// Editing with no option given leaves the configuration as it was, when it
/// has no chain ids and no databases (those are not carried over).
pub proof fn lemma_edit_without_options_is_identity(existing: ZKSyncConfig, opts: EditConfigOpts)
    requires
        no_edits(opts),
        existing.network.l1_chain_id is None,
        existing.network.l2_chain_id is None,
        existing.db is None,
    ensures
        edited_config(existing, opts) == existing,
{
    let e = edited_config(existing, opts);
    assert(e.network == existing.network);
    assert(e.governance == existing.governance);
    assert(e.bridgehub == existing.bridgehub);
    match existing.wallet {
        Some(w) => {
            assert(e.wallet->0 == w);
        },
        None => {},
    }
}

/// Editing twice with the same options gives what editing once gives.
pub proof fn lemma_edit_is_idempotent(existing: ZKSyncConfig, opts: EditConfigOpts)
    ensures
        edited_config(edited_config(existing, opts), opts) == edited_config(existing, opts),
{
    let once = edited_config(existing, opts);
    let twice = edited_config(once, opts);
    assert(twice.network == once.network);
    assert(twice.governance == once.governance);
    assert(twice.bridgehub == once.bridgehub);
    match once.wallet {
        Some(w) => {
            assert(twice.wallet->0 == w);
        },
        None => {},
    }
}

/// Every option that is given ends up in the edited configuration (the
/// wallet's fields where the configuration has a wallet).
pub proof fn lemma_given_options_are_applied(existing: ZKSyncConfig, opts: EditConfigOpts)
    ensures
        opts.l1_rpc_url is Some ==> edited_config(existing, opts).network.l1_rpc_url
            == opts.l1_rpc_url,
        opts.l2_rpc_url is Some ==> edited_config(existing, opts).network.l2_rpc_url
            == opts.l2_rpc_url->0,
        opts.l2_explorer_url is Some ==> edited_config(existing, opts).network.l2_explorer_url
            == opts.l2_explorer_url,
        opts.l1_explorer_url is Some ==> edited_config(existing, opts).network.l1_explorer_url
            == opts.l1_explorer_url,
        opts.governance is Some ==> edited_config(existing, opts).governance.address
            == opts.governance->0,
        opts.governance_owner is Some ==> edited_config(existing, opts).governance.owner_private_key
            == opts.governance_owner->0,
        opts.bridgehub_admin is Some ==> edited_config(existing, opts).bridgehub.admin_private_key
            == opts.bridgehub_admin,
        opts.bridgehub_owner is Some ==> edited_config(existing, opts).bridgehub.owner_private_key
            == opts.bridgehub_owner,
        existing.wallet is Some && opts.private_key is Some ==> edited_config(
            existing,
            opts,
        ).wallet->0.private_key == opts.private_key->0,
        existing.wallet is Some && opts.address is Some ==> edited_config(
            existing,
            opts,
        ).wallet->0.address == opts.address->0,
        edited_config(existing, opts).wallet is Some <==> existing.wallet is Some,
{
}

/// The name of the file, in the configurations directory, that records
/// which configuration is selected.
pub const SELECTED_CONFIG_FILE_NAME: &'static str = ".selected";

/// The path `base` joined with `file`, as `Path::join` builds it.
pub uninterp spec fn path_join(base: Seq<char>, file: Seq<char>) -> Seq<char>;

/// A path separator: `/`, or on Windows also `\`.
pub open spec fn is_path_separator(c: char) -> bool {
    c == '/' || c == '\\'
}

/// A directory to which `Path::join` adds one separator before a file
/// name: not empty, not ending in a separator or a drive's colon, and not a
/// verbatim Windows path (those hold a `?`).
pub open spec fn plain_dir(d: Seq<char>) -> bool {
    &&& d.len() > 0
    &&& !is_path_separator(d.last())
    &&& d.last() != ':'
    &&& forall|i: int| 0 <= i < d.len() ==> d[i] != '?'
}

/// A file name that `Path::join` adds as one more component: not empty, not
/// `.` or `..`, with no separator and no drive's colon.
pub open spec fn plain_file_name(f: Seq<char>) -> bool {
    &&& f.len() > 0
    &&& f != seq!['.']
    &&& f != seq!['.', '.']
    &&& forall|i: int| 0 <= i < f.len() ==> !is_path_separator(f[i]) && f[i] != ':'
}

/// `p` is the directory `dir`, one separator, and the file name `file`:
/// its parent is `dir` and its final component is `file`.
pub open spec fn joined_path(p: Seq<char>, dir: Seq<char>, file: Seq<char>) -> bool {
    &&& p.len() == dir.len() + 1 + file.len()
    &&& p.subrange(0, dir.len() as int) == dir
    &&& is_path_separator(p[dir.len() as int])
    &&& p.subrange(dir.len() as int + 1, p.len() as int) == file
}

/// `Path::new(base).join(file)`, as text (lossless, both being UTF-8).
/// The result is named; it is stated only where a plain file name is
/// adjoined to a plain directory: then the directory, one separator (the
/// platform's) and the file name, as `Path::join("/etc", "passwd")` gives
/// `/etc/passwd`. How other paths are joined depends on the platform and
/// is left unsaid.
#[verifier::external_body]
fn join_path(base: &str, file: &str) -> (r: String)
    ensures
        r@ == path_join(base@, file@),
        plain_dir(base@) && plain_file_name(file@) ==> joined_path(r@, base@, file@),
{
    std::path::Path::new(base).join(file).to_string_lossy().into_owned()
}

/// The file name of the configuration called `config_name`.
pub open spec fn config_file_name(config_name: Seq<char>) -> Seq<char> {
    config_name + seq!['.', 't', 'o', 'm', 'l']
}

/// A configuration name whose file name joins as one component: not empty,
/// with no separator and no drive's colon.
pub open spec fn plain_config_name(name: Seq<char>) -> bool {
    &&& name.len() > 0
    &&& forall|i: int| 0 <= i < name.len() ==> !is_path_separator(name[i]) && name[i] != ':'
}

/// The path of the configuration file called `config_name` in the
/// configurations directory `configs_dir`: for a plain directory and name,
/// the directory, a separator and `<config_name>.toml`.
pub fn config_path(configs_dir: &str, config_name: &str) -> (r: String)
    ensures
        r@ == path_join(configs_dir@, config_file_name(config_name@)),
        plain_dir(configs_dir@) && plain_config_name(config_name@) ==> joined_path(
            r@,
            configs_dir@,
            config_file_name(config_name@),
        ),
{
    proof {
        lemma_config_file_name_is_plain(config_name@);
    }
    let mut file_name = config_name.to_owned();
    proof { reveal_strlit(".toml"); }
    file_name.append(".toml");
    assert(file_name@ =~= config_file_name(config_name@));
    join_path(configs_dir, file_name.as_str())
}

/// The path of the file that records the selected configuration in the
/// configurations directory `configs_dir`: for a plain directory, the
/// directory, a separator and `.selected`.
pub fn selected_config_path(configs_dir: &str) -> (r: String)
    ensures
        r@ == path_join(configs_dir@, SELECTED_CONFIG_FILE_NAME@),
        plain_dir(configs_dir@) ==> joined_path(r@, configs_dir@, SELECTED_CONFIG_FILE_NAME@),
{
    proof {
        reveal_strlit(".selected");
        assert(SELECTED_CONFIG_FILE_NAME@.len() == 9);
        assert(SELECTED_CONFIG_FILE_NAME@ != seq!['.']);
        assert(SELECTED_CONFIG_FILE_NAME@ != seq!['.', '.']);
    }
    join_path(configs_dir, SELECTED_CONFIG_FILE_NAME)
}

/// The name of the tool's directory in the user's configuration directory.
pub const TOOL_DIR_NAME: &'static str = "zks-cli";

/// The name of the directory, in the tool's directory, that holds the
/// configurations.
pub const CONFIGS_DIR_NAME: &'static str = "configs";

/// The configurations directory of a user whose configuration directory is
/// `config_dir`: `zks-cli/configs` in it. For a plain directory, that is
/// the directory, a separator, `zks-cli`, a separator and `configs`, and a
/// plain directory again.
pub fn configs_dir_path(config_dir: &str) -> (r: String)
    ensures
        r@ == path_join(path_join(config_dir@, TOOL_DIR_NAME@), CONFIGS_DIR_NAME@),
        plain_dir(config_dir@) ==> {
            let tool_dir = path_join(config_dir@, TOOL_DIR_NAME@);
            &&& joined_path(tool_dir, config_dir@, TOOL_DIR_NAME@)
            &&& joined_path(r@, tool_dir, CONFIGS_DIR_NAME@)
            &&& plain_dir(r@)
        },
{
    proof {
        reveal_strlit("zks-cli");
        reveal_strlit("configs");
    }
    let tool_dir = join_path(config_dir, TOOL_DIR_NAME);
    proof {
        if plain_dir(config_dir@) {
            lemma_joined_path_is_plain_dir(tool_dir@, config_dir@, TOOL_DIR_NAME@);
        }
    }
    let r = join_path(tool_dir.as_str(), CONFIGS_DIR_NAME);
    proof {
        if plain_dir(config_dir@) {
            lemma_joined_path_is_plain_dir(r@, tool_dir@, CONFIGS_DIR_NAME@);
        }
    }
    r
}

/// A plain file name joined to a plain directory is a plain directory.
proof fn lemma_joined_path_is_plain_dir(p: Seq<char>, dir: Seq<char>, file: Seq<char>)
    requires
        joined_path(p, dir, file),
        plain_dir(dir),
        plain_file_name(file),
        forall|i: int| 0 <= i < file.len() ==> file[i] != '?',
    ensures
        plain_dir(p),
{
    assert(p.last() == file.last()) by {
        assert(p.subrange(dir.len() as int + 1, p.len() as int)[file.len() - 1] == p[p.len() - 1]);
    }
    assert forall|i: int| 0 <= i < p.len() implies p[i] != '?' by {
        if i < dir.len() {
            assert(p.subrange(0, dir.len() as int)[i] == p[i]);
        } else if i > dir.len() {
            assert(p.subrange(dir.len() as int + 1, p.len() as int)[i - dir.len() - 1] == p[i]);
        }
    }
}

/// The file name of a plain configuration name is a plain file name.
proof fn lemma_config_file_name_is_plain(name: Seq<char>)
    ensures
        plain_config_name(name) ==> plain_file_name(config_file_name(name)),
{
    let f = config_file_name(name);
    if plain_config_name(name) {
        assert(f.len() > 2);
        assert forall|i: int| 0 <= i < f.len() implies !is_path_separator(f[i]) && f[i] != ':' by {
            if i < name.len() {
                assert(f[i] == name[i]);
            }
        }
    }
}

/// The text `.toml`.
pub open spec fn toml_extension() -> Seq<char> {
    seq!['.', 't', 'o', 'm', 'l']
}

/// The configuration names that the files of the configurations directory
/// stand for: each file name without its `.toml`, the selection record left
/// out.
pub open spec fn config_names_of(file_names: Seq<Seq<char>>) -> Seq<Seq<char>>
    decreases file_names.len(),
{
    if file_names.len() == 0 {
        seq![]
    } else {
        let rest = config_names_of(file_names.drop_last());
        let name = remove_all(file_names.last(), toml_extension());
        if name == SELECTED_CONFIG_FILE_NAME@ {
            rest
        } else {
            rest.push(name)
        }
    }
}

/// The configuration names that the given file names (of the
/// configurations directory) stand for, in the same order.
pub fn config_file_names(file_names: &Vec<String>) -> (r: Vec<String>)
    ensures
        r@.map_values(|s: String| s@) == config_names_of(file_names@.map_values(|s: String| s@)),
{
    let ghost names = file_names@.map_values(|s: String| s@);
    let mut r: Vec<String> = Vec::new();
    let mut i: usize = 0;
    proof { reveal_strlit(".toml"); }
    while i < file_names.len()
        invariant
            i <= file_names@.len(),
            names == file_names@.map_values(|s: String| s@),
            toml_extension() == ".toml"@,
            r@.map_values(|s: String| s@) == config_names_of(names.subrange(0, i as int)),
        decreases file_names@.len() - i,
    {
        let name = remove_all_exec(file_names[i].as_str(), ".toml");
        assert(names.subrange(0, i + 1).drop_last() == names.subrange(0, i as int));
        assert(names.subrange(0, i + 1).last() == file_names@[i as int]@);
        let selected_name = SELECTED_CONFIG_FILE_NAME.to_owned();
        if name != selected_name {
            let ghost before = r@;
            r.push(name);
            assert(r@.map_values(|s: String| s@) == before.map_values(|s: String| s@).push(
                name@,
            ));
        }
        i = i + 1;
    }
    assert(names.subrange(0, file_names@.len() as int) == names);
    r
}


/// The values that the prompts of an interactive edit offer, or that a new
/// configuration falls back to.
#[derive(Clone, Debug)]
pub struct PromptDefaults {
    pub l1_rpc_url: String,
    pub l2_rpc_url: String,
    pub l2_explorer_url: String,
    pub l1_explorer_url: String,
    pub private_key: String,
    pub address: [u8; 20],
    pub governance_address: [u8; 20],
    pub governance_owner_private_key: String,
    pub bridgehub_admin_private_key: String,
    pub bridgehub_owner_private_key: String,
}

/// The existing optional value, else the fallback.
pub open spec fn existing_or(existing: Option<String>, fallback: String) -> String {
    match existing {
        Some(v) => v,
        None => fallback,
    }
}

fn clone_or(existing: &Option<String>, fallback: &String) -> (r: String)
    ensures
        r == existing_or(*existing, *fallback),
{
    match existing {
        Some(v) => v.clone(),
        None => fallback.clone(),
    }
}

/// What each prompt of an interactive edit of `existing` offers: the
/// configuration's own value, or the fallback where it has none. The L2 RPC
/// URL and the governance values always exist.
pub open spec fn edit_prompt_defaults_spec(existing: ZKSyncConfig, fallback: PromptDefaults) -> PromptDefaults {
    PromptDefaults {
        l1_rpc_url: existing_or(existing.network.l1_rpc_url, fallback.l1_rpc_url),
        l2_rpc_url: existing.network.l2_rpc_url,
        l2_explorer_url: existing_or(existing.network.l2_explorer_url, fallback.l2_explorer_url),
        l1_explorer_url: existing_or(existing.network.l1_explorer_url, fallback.l1_explorer_url),
        private_key: match existing.wallet {
            Some(w) => w.private_key,
            None => fallback.private_key,
        },
        address: match existing.wallet {
            Some(w) => w.address,
            None => fallback.address,
        },
        governance_address: existing.governance.address,
        governance_owner_private_key: existing.governance.owner_private_key,
        bridgehub_admin_private_key: existing_or(
            existing.bridgehub.admin_private_key,
            fallback.bridgehub_admin_private_key,
        ),
        bridgehub_owner_private_key: existing_or(
            existing.bridgehub.owner_private_key,
            fallback.bridgehub_owner_private_key,
        ),
    }
}

/// What each prompt of an interactive edit of `existing` offers.
pub fn edit_prompt_defaults(existing: &ZKSyncConfig, fallback: &PromptDefaults) -> (r: PromptDefaults)
    ensures
        r == edit_prompt_defaults_spec(*existing, *fallback),
{
    let (private_key, address) = match &existing.wallet {
        Some(w) => (w.private_key.clone(), w.address),
        None => (fallback.private_key.clone(), fallback.address),
    };
    PromptDefaults {
        l1_rpc_url: clone_or(&existing.network.l1_rpc_url, &fallback.l1_rpc_url),
        l2_rpc_url: existing.network.l2_rpc_url.clone(),
        l2_explorer_url: clone_or(&existing.network.l2_explorer_url, &fallback.l2_explorer_url),
        l1_explorer_url: clone_or(&existing.network.l1_explorer_url, &fallback.l1_explorer_url),
        private_key,
        address,
        governance_address: existing.governance.address,
        governance_owner_private_key: existing.governance.owner_private_key.clone(),
        bridgehub_admin_private_key: clone_or(
            &existing.bridgehub.admin_private_key,
            &fallback.bridgehub_admin_private_key,
        ),
        bridgehub_owner_private_key: clone_or(
            &existing.bridgehub.owner_private_key,
            &fallback.bridgehub_owner_private_key,
        ),
    }
}

/// The answers given to the configuration prompts; an optional value is
/// `None` where its prompt failed.
#[derive(Clone, Debug)]
pub struct PromptAnswers {
    pub l1_rpc_url: Option<String>,
    pub l2_rpc_url: String,
    pub l2_explorer_url: Option<String>,
    pub l1_explorer_url: Option<String>,
    pub private_key: String,
    pub address: [u8; 20],
    pub governance_address: [u8; 20],
    pub governance_owner_private_key: String,
    pub bridgehub_admin_private_key: Option<String>,
    pub bridgehub_owner_private_key: Option<String>,
}

/// The configuration made of the answers to the prompts: the wallet always
/// exists; there are no chain ids and no databases.
pub open spec fn config_from_answers_spec(answers: PromptAnswers) -> ZKSyncConfig {
    ZKSyncConfig {
        network: NetworkConfig {
            l1_rpc_url: answers.l1_rpc_url,
            l1_chain_id: None,
            l1_explorer_url: answers.l1_explorer_url,
            l2_rpc_url: answers.l2_rpc_url,
            l2_chain_id: None,
            l2_explorer_url: answers.l2_explorer_url,
        },
        wallet: Some(WalletConfig { address: answers.address, private_key: answers.private_key }),
        db: None,
        governance: GovernanceConfig {
            address: answers.governance_address,
            owner_private_key: answers.governance_owner_private_key,
        },
        bridgehub: BridgehubConfig {
            admin_private_key: answers.bridgehub_admin_private_key,
            owner_private_key: answers.bridgehub_owner_private_key,
        },
    }
}

/// The configuration made of the answers to the prompts of a new
/// configuration or of an interactive edit.
pub fn config_from_answers(answers: PromptAnswers) -> (r: ZKSyncConfig)
    ensures
        r == config_from_answers_spec(answers),
{
    let PromptAnswers {
        l1_rpc_url,
        l2_rpc_url,
        l2_explorer_url,
        l1_explorer_url,
        private_key,
        address,
        governance_address,
        governance_owner_private_key,
        bridgehub_admin_private_key,
        bridgehub_owner_private_key,
    } = answers;
    ZKSyncConfig {
        network: NetworkConfig {
            l1_rpc_url,
            l1_chain_id: None,
            l1_explorer_url,
            l2_rpc_url,
            l2_chain_id: None,
            l2_explorer_url,
        },
        wallet: Some(WalletConfig { address, private_key }),
        db: None,
        governance: GovernanceConfig {
            address: governance_address,
            owner_private_key: governance_owner_private_key,
        },
        bridgehub: BridgehubConfig {
            admin_private_key: bridgehub_admin_private_key,
            owner_private_key: bridgehub_owner_private_key,
        },
    }
}


/// The answers that accept every offered value.
pub open spec fn accepted_defaults(d: PromptDefaults) -> PromptAnswers {
    PromptAnswers {
        l1_rpc_url: Some(d.l1_rpc_url),
        l2_rpc_url: d.l2_rpc_url,
        l2_explorer_url: Some(d.l2_explorer_url),
        l1_explorer_url: Some(d.l1_explorer_url),
        private_key: d.private_key,
        address: d.address,
        governance_address: d.governance_address,
        governance_owner_private_key: d.governance_owner_private_key,
        bridgehub_admin_private_key: Some(d.bridgehub_admin_private_key),
        bridgehub_owner_private_key: Some(d.bridgehub_owner_private_key),
    }
}

/// Accepting every value that an interactive edit offers gives back the
/// configuration being edited, when it has a wallet and all its optional
/// URLs and keys, and neither chain ids nor databases (those are not
/// carried over).
pub proof fn lemma_accepting_defaults_keeps_config(existing: ZKSyncConfig, fallback: PromptDefaults)
    requires
        existing.wallet is Some,
        existing.network.l1_rpc_url is Some,
        existing.network.l2_explorer_url is Some,
        existing.network.l1_explorer_url is Some,
        existing.bridgehub.admin_private_key is Some,
        existing.bridgehub.owner_private_key is Some,
        existing.network.l1_chain_id is None,
        existing.network.l2_chain_id is None,
        existing.db is None,
    ensures
        config_from_answers_spec(accepted_defaults(edit_prompt_defaults_spec(existing, fallback)))
            == existing,
{
    let r = config_from_answers_spec(accepted_defaults(edit_prompt_defaults_spec(existing, fallback)));
    assert(r.network == existing.network);
    assert(r.wallet == existing.wallet);
    assert(r.governance == existing.governance);
    assert(r.bridgehub == existing.bridgehub);
}


proof fn lemma_remove_extension(name: Seq<char>)
    requires
        forall|i: int| !occurs_at(name, toml_extension(), i),
    ensures
        remove_all(name + toml_extension(), toml_extension()) == name,
    decreases name.len(),
{
    let t = toml_extension();
    let s = name + t;
    if name.len() == 0 {
        assert(s =~= t);
        assert(s.subrange(0, 5) =~= t);
        assert(occurs_at(s, t, 0));
        assert(s.subrange(t.len() as int, s.len() as int) =~= Seq::<char>::empty());
        assert(remove_all(Seq::<char>::empty(), t) == Seq::<char>::empty());
    } else {
        assert(!occurs_at(s, t, 0)) by {
            if name.len() >= 5 {
                assert(s.subrange(0, 5) == name.subrange(0, 5));
                assert(!occurs_at(name, t, 0));
            } else {
                if s.subrange(0, 5) == t {
                    assert(s.subrange(0, 5)[name.len() as int] == s[name.len() as int]);
                    assert(s[name.len() as int] == '.');
                }
            }
        }
        let rest = name.subrange(1, name.len() as int);
        assert forall|i: int| !occurs_at(rest, t, i) by {
            if occurs_at(rest, t, i) {
                assert(rest.subrange(i, i + t.len()) == name.subrange(i + 1, i + 1 + t.len()));
                assert(occurs_at(name, t, i + 1));
            }
        }
        lemma_remove_extension(rest);
        assert(s.subrange(1, s.len() as int) == rest + t);
        assert(seq![name[0]] + rest == name);
    }
}

/// A configuration saved under a name is listed under that name, when the
/// name holds no `.toml` and is not the selection record's.
pub proof fn lemma_saved_config_is_listed(name: Seq<char>)
    requires
        forall|i: int| !occurs_at(name, toml_extension(), i),
        name != SELECTED_CONFIG_FILE_NAME@,
    ensures
        config_names_of(seq![config_file_name(name)]) == seq![name],
{
    lemma_remove_extension(name);
    let files = seq![config_file_name(name)];
    assert(files.drop_last().len() == 0);
    assert(config_names_of(files.drop_last()) == Seq::<Seq<char>>::empty());
    assert(config_file_name(name) == name + toml_extension());
}

/// The names listed for some file names hold every name listed for fewer
/// of them.
proof fn lemma_listed_names_grow(files: Seq<Seq<char>>, j: int)
    requires
        0 <= j <= files.len(),
    ensures
        forall|n: Seq<char>| #[trigger] config_names_of(files.subrange(0, j)).contains(n)
            ==> config_names_of(files).contains(n),
    decreases files.len() - j,
{
    if j < files.len() {
        lemma_listed_names_grow(files, j + 1);
        let pre = files.subrange(0, j);
        let pre1 = files.subrange(0, j + 1);
        assert(pre1.drop_last() == pre);
        assert forall|n: Seq<char>| #[trigger] config_names_of(pre).contains(n) implies config_names_of(
            pre1,
        ).contains(n) by {
            let rest = config_names_of(pre);
            let t = choose|t: int| 0 <= t < rest.len() && rest[t] == n;
            if config_names_of(pre1) != rest {
                assert(config_names_of(pre1)[t] == n);
            }
        }
    } else {
        assert(files.subrange(0, j) == files);
    }
}

/// A configuration saved under a name is listed under that name whatever
/// other files the configurations directory holds, when the name holds no
/// `.toml` and is not the selection record's.
pub proof fn lemma_saved_config_is_listed_among(file_names: Seq<Seq<char>>, name: Seq<char>)
    requires
        file_names.contains(config_file_name(name)),
        forall|i: int| !occurs_at(name, toml_extension(), i),
        name != SELECTED_CONFIG_FILE_NAME@,
    ensures
        config_names_of(file_names).contains(name),
{
    let k = choose|k: int| 0 <= k < file_names.len() && file_names[k] == config_file_name(name);
    lemma_remove_extension(name);
    assert(config_file_name(name) == name + toml_extension());
    let pre1 = file_names.subrange(0, k + 1);
    assert(pre1.last() == config_file_name(name));
    let listed = config_names_of(pre1);
    assert(listed.last() == name);
    assert(listed.contains(name));
    lemma_listed_names_grow(file_names, k + 1);
}

/// The index of the last `.` of a file name, or -1 when it has none.
pub open spec fn last_dot(f: Seq<char>) -> int
    decreases f.len(),
{
    if f.len() == 0 {
        -1
    } else if f.last() == '.' {
        f.len() - 1
    } else {
        last_dot(f.drop_last())
    }
}

/// The stem of a file name, as `Path::file_stem` describes it: the part
/// before its last `.`, or the whole name when it has no `.` but a leading
/// one.
pub open spec fn file_stem_of(f: Seq<char>) -> Seq<char> {
    if last_dot(f) <= 0 {
        f
    } else {
        f.subrange(0, last_dot(f))
    }
}

/// The extension of a file name, as `Path::extension` describes it: the
/// part after its last `.`, if that `.` is not its first character.
pub open spec fn file_extension_of(f: Seq<char>) -> Option<Seq<char>> {
    if last_dot(f) <= 0 {
        None
    } else {
        Some(f.subrange(last_dot(f) + 1, f.len() as int))
    }
}

/// The configuration name comes back as the stem of its file name, whose
/// extension is `toml`.
pub proof fn lemma_config_name_is_file_stem(name: Seq<char>)
    requires
        name.len() > 0,
    ensures
        file_stem_of(config_file_name(name)) == name,
        file_extension_of(config_file_name(name)) == Some(seq!['t', 'o', 'm', 'l']),
{
    let f = config_file_name(name);
    let n = name.len() as int;
    assert(f.drop_last() == name + seq!['.', 't', 'o', 'm']);
    assert(f.drop_last().drop_last() == name + seq!['.', 't', 'o']);
    assert(f.drop_last().drop_last().drop_last() == name + seq!['.', 't']);
    assert(f.drop_last().drop_last().drop_last().drop_last() == name + seq!['.']);
    let f1 = f.drop_last();
    let f2 = f1.drop_last();
    let f3 = f2.drop_last();
    let f4 = f3.drop_last();
    assert(f.last() == 'l' && f1.last() == 'm' && f2.last() == 'o' && f3.last() == 't');
    assert(f4.last() == '.');
    assert(last_dot(f4) == n);
    assert(last_dot(f3) == n);
    assert(last_dot(f2) == n);
    assert(last_dot(f1) == n);
    assert(last_dot(f) == n);
    assert(f.subrange(0, n) == name);
    assert(f.subrange(n + 1, f.len() as int) == seq!['t', 'o', 'm', 'l']);
}

/// Paths that join different file names to one directory differ.
pub proof fn lemma_joined_paths_differ(
    p1: Seq<char>,
    p2: Seq<char>,
    dir: Seq<char>,
    f1: Seq<char>,
    f2: Seq<char>,
)
    requires
        joined_path(p1, dir, f1),
        joined_path(p2, dir, f2),
        f1 != f2,
    ensures
        p1 != p2,
{
}

/// In a plain configurations directory, the paths of configurations with
/// different names differ, and no configuration's path is that of the
/// selection record. `config` and `other` are the paths of the
/// configurations `name` and `other_name`, `selected` that of the record,
/// each as `config_path` and `selected_config_path` give them.
pub proof fn lemma_config_paths_are_distinct(
    configs_dir: Seq<char>,
    name: Seq<char>,
    other_name: Seq<char>,
    config: Seq<char>,
    other: Seq<char>,
    selected: Seq<char>,
)
    requires
        joined_path(config, configs_dir, config_file_name(name)),
        joined_path(other, configs_dir, config_file_name(other_name)),
        joined_path(selected, configs_dir, SELECTED_CONFIG_FILE_NAME@),
    ensures
        config != selected,
        name != other_name ==> config != other,
{
    reveal_strlit(".selected");
    let f = config_file_name(name);
    let s = SELECTED_CONFIG_FILE_NAME@;
    assert(s.len() == 9);
    if f == s {
        assert(f[f.len() - 1] == 'l');
        assert(s[8] == 'd');
    }
    lemma_joined_paths_differ(config, selected, configs_dir, f, s);
    if name != other_name {
        let g = config_file_name(other_name);
        if f == g {
            assert(name == f.subrange(0, name.len() as int));
            assert(other_name == g.subrange(0, other_name.len() as int));
        }
        lemma_joined_paths_differ(config, other, configs_dir, f, g);
    }
}

} // verus!

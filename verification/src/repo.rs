//! Repositories, and which of them are not even looked at.

use vstd::prelude::*;

use crate::text::same_text;

verus! {

/// What is known of a repository from the search.
#[derive(Debug)]
pub struct Repository {
    pub full_name: Option<String>,
    pub archived: Option<bool>,
}

/// Repositories that are not wanted.
pub const BANNED_REPOS: [&'static str; 52] = [
    "rustdesk/rustdesk",  // proprietary stuff
    "rustdesk/rustdesk-server",  // proprietary stuff
    "rust-lang/rustlings",  // teaching project
    "rust-unofficial/awesome-rust",  // not actually rust code
    "lencx/ChatGPT",  // AI
    "FuelLabs/sway",  // crypto
    "FuelLabs/fuel-core",  // crypto
    "google/comprehensive-rust",  // teaching project
    "sunface/rust-course",  // teaching project
    "copy/v86",  // not only rust
    "facebook/relay",  // this is a JS framework
    "TheAlgorithms/Rust",  // teaching project
    "diem/diem",  // crypto
    "FuelLabs/fuels-rs",  // crypto
    "rust-lang/book",  // this is docs
    "analysis-tools-dev/static-analysis",  // not actually rust code
    "solana-labs/solana",  // crypto
    "pingcap/talent-plan",  // teaching project
    "jauhien/iron-kaleidoscope",  // teaching project
    "sunface/rust-by-practice",  // teaching project
    "paritytech/polkadot",  // crypto
    "openethereum/parity-ethereum",  // crypto
    "Reamd7/notion-zh_CN",  // not only rust code
    "pretzelhammer/rust-blog",  // not code
    "aptos-labs/aptos-core",  // crypto
    "MystenLabs/sui",  // crypto
    "facebook/sapling",  // not only rust code
    "utilForever/game-developer-roadmap",  // not code
    "mimblewimble/grin",  // crypto
    "crablang/crab",  // just a mirror ("fork") of rust
    "rust-embedded/rust-raspberrypi-OS-tutorials",  // teaching project
    "flosse/rust-web-framework-comparison",  // not code
    "headwindsim/A339X",  // not majority rust
    "EvilGenius-dot/RustMinerSystem",  // crypto, a collection of blobs
    "a137x/plutus-rustus",  // not majority rust
    "NodleCode/chain",  // crypto stuff
    "parity-asia/hackathon-2021-spring",  // teaching project
    "DaZiYuan/livewallpaper",  // blobs
    "dfinity/internet-identity",  // crypto
    "paritytech/polkadot-sdk",  // crypto
    "reison1218/GameServer_Rust",  // blobs
    "LayerXcom/zero-chain",  // crypto
    "ravenclaw900/DietPi-Dashboard",  // blobs, not majority rust
    "tyrchen/rust-training",  // teaching project
    "parity-asia/hackathon-2023-summer",  // teaching project
    "second-state/wasm-learning",  // teaching project
    "standardweb3/standard-substrate",  // crypto
    "linera-io/linera-protocol",  // crypto
    "mkb2091/blockconvert",  // blobs
    "HorizenOfficial/zendoo-sc-cryptolib",  // crypto
    "MadrigalStreetCartel/neuz",  // blobs
    "dashpay/platform",  // crypto
];

/// The names of the repositories that are not wanted.
pub open spec fn banned_names() -> Set<Seq<char>> {
    Set::new(
        |name: Seq<char>|
            exists|i: int| 0 <= i < BANNED_REPOS@.len() && #[trigger] BANNED_REPOS@[i]@ == name,
    )
}

/// What the search alone tells of a repository.
#[derive(Debug, Copy, Clone, PartialEq, Eq, Structural)]
pub enum Screening {
    /// Worth a closer look.
    Pass,
    /// Archived.
    Archived,
    /// Not wanted.
    Banned,
}

impl Repository {
    /// The name of the repository: empty if none is given.
    pub open spec fn name(&self) -> Seq<char> {
        match self.full_name {
            Some(name) => name@,
            None => Seq::empty(),
        }
    }

    /// The repository is archived: not if nothing is said of it.
    pub open spec fn is_archived(&self) -> bool {
        self.archived == Some(true)
    }

    /// What the search alone tells of the repository. An archived one counts as archived, whether
    /// it is wanted or not.
    pub open spec fn screening(&self) -> Screening {
        if self.is_archived() {
            Screening::Archived
        } else if banned_names().contains(self.name()) {
            Screening::Banned
        } else {
            Screening::Pass
        }
    }

    /// The name of the repository, or an empty one.
    pub fn name_or_empty(&self) -> (r: String)
        ensures
            r@ == self.name(),
            self.full_name matches Some(name) ==> r@ == name@,
            self.full_name is None ==> r@.len() == 0,
    {
        match &self.full_name {
            Some(name) => name.clone(),
            None => String::new(),
        }
    }

    /// Judges the repository by what the search tells.
    pub fn screen(&self) -> (r: Screening)
        ensures
            r == self.screening(),
            r == Screening::Archived <==> self.archived == Some(true),
            r == Screening::Banned <==> self.archived != Some(true) && exists|i: int|
                0 <= i < 52 && #[trigger] BANNED_REPOS@[i]@ == (match self.full_name {
                    Some(name) => name@,
                    None => Seq::<char>::empty(),
                }),
    {
        if let Some(true) = self.archived {
            return Screening::Archived;
        }
        if is_banned(self.name_or_empty().as_str()) {
            Screening::Banned
        } else {
            Screening::Pass
        }
    }
}

/// Whether a repository of this name is not wanted.
pub fn is_banned(name: &str) -> (r: bool)
    ensures
        r == banned_names().contains(name@),
        r <==> exists|i: int| 0 <= i < 52 && #[trigger] BANNED_REPOS@[i]@ == name@,
{
    let banned = BANNED_REPOS;
    let mut i: usize = 0;
    while i < banned.len()
        invariant
            banned == BANNED_REPOS,
            forall|j: int| 0 <= j < i ==> #[trigger] BANNED_REPOS@[j]@ != name@,
        decreases banned.len() - i,
    {
        if same_text(banned[i], name) {
            assert(BANNED_REPOS@[i as int]@ == name@);
            return true;
        }
        i = i + 1;
    }
    false
}

/// Whether a repository is worth a closer look: it is neither archived nor unwanted.
pub fn pre_filter_repo(repo: &Repository) -> (r: bool)
    ensures
        r == (!repo.is_archived() && !banned_names().contains(repo.name())),
        r <==> repo.archived != Some(true) && !(exists|i: int|
            0 <= i < 52 && #[trigger] BANNED_REPOS@[i]@ == (match repo.full_name {
                Some(name) => name@,
                None => Seq::<char>::empty(),
            })),
{
    match repo.screen() {
        Screening::Pass => true,
        _ => false,
    }
}

/// A repository is archived exactly if that is said of it. One that is not is banned exactly if its
/// name is, as a whole, one of those that are not wanted.
pub proof fn screening_goes_by_the_fields(repo: Repository)
    ensures
        repo.screening() == Screening::Archived <==> repo.archived == Some(true),
        repo.screening() == Screening::Banned <==> repo.archived != Some(true) && exists|i: int|
            0 <= i < 52 && #[trigger] BANNED_REPOS@[i]@ == (match repo.full_name {
                Some(name) => name@,
                None => Seq::<char>::empty(),
            }),
{
}

/// These are the names that are not wanted, and there are no others.
pub proof fn these_names_are_banned(name: Seq<char>)
    ensures
        banned_names().contains(name) <==> {
            ||| name == "rustdesk/rustdesk"@
            ||| name == "rustdesk/rustdesk-server"@
            ||| name == "rust-lang/rustlings"@
            ||| name == "rust-unofficial/awesome-rust"@
            ||| name == "lencx/ChatGPT"@
            ||| name == "FuelLabs/sway"@
            ||| name == "FuelLabs/fuel-core"@
            ||| name == "google/comprehensive-rust"@
            ||| name == "sunface/rust-course"@
            ||| name == "copy/v86"@
            ||| name == "facebook/relay"@
            ||| name == "TheAlgorithms/Rust"@
            ||| name == "diem/diem"@
            ||| name == "FuelLabs/fuels-rs"@
            ||| name == "rust-lang/book"@
            ||| name == "analysis-tools-dev/static-analysis"@
            ||| name == "solana-labs/solana"@
            ||| name == "pingcap/talent-plan"@
            ||| name == "jauhien/iron-kaleidoscope"@
            ||| name == "sunface/rust-by-practice"@
            ||| name == "paritytech/polkadot"@
            ||| name == "openethereum/parity-ethereum"@
            ||| name == "Reamd7/notion-zh_CN"@
            ||| name == "pretzelhammer/rust-blog"@
            ||| name == "aptos-labs/aptos-core"@
            ||| name == "MystenLabs/sui"@
            ||| name == "facebook/sapling"@
            ||| name == "utilForever/game-developer-roadmap"@
            ||| name == "mimblewimble/grin"@
            ||| name == "crablang/crab"@
            ||| name == "rust-embedded/rust-raspberrypi-OS-tutorials"@
            ||| name == "flosse/rust-web-framework-comparison"@
            ||| name == "headwindsim/A339X"@
            ||| name == "EvilGenius-dot/RustMinerSystem"@
            ||| name == "a137x/plutus-rustus"@
            ||| name == "NodleCode/chain"@
            ||| name == "parity-asia/hackathon-2021-spring"@
            ||| name == "DaZiYuan/livewallpaper"@
            ||| name == "dfinity/internet-identity"@
            ||| name == "paritytech/polkadot-sdk"@
            ||| name == "reison1218/GameServer_Rust"@
            ||| name == "LayerXcom/zero-chain"@
            ||| name == "ravenclaw900/DietPi-Dashboard"@
            ||| name == "tyrchen/rust-training"@
            ||| name == "parity-asia/hackathon-2023-summer"@
            ||| name == "second-state/wasm-learning"@
            ||| name == "standardweb3/standard-substrate"@
            ||| name == "linera-io/linera-protocol"@
            ||| name == "mkb2091/blockconvert"@
            ||| name == "HorizenOfficial/zendoo-sc-cryptolib"@
            ||| name == "MadrigalStreetCartel/neuz"@
            ||| name == "dashpay/platform"@
        },
{
    if banned_names().contains(name) {
        let i = choose|i: int| 0 <= i < 52 && #[trigger] BANNED_REPOS@[i]@ == name;
        assert(BANNED_REPOS@[i]@ == name);
    }
    assert(BANNED_REPOS@[0]@ == "rustdesk/rustdesk"@);
    assert(BANNED_REPOS@[1]@ == "rustdesk/rustdesk-server"@);
    assert(BANNED_REPOS@[2]@ == "rust-lang/rustlings"@);
    assert(BANNED_REPOS@[3]@ == "rust-unofficial/awesome-rust"@);
    assert(BANNED_REPOS@[4]@ == "lencx/ChatGPT"@);
    assert(BANNED_REPOS@[5]@ == "FuelLabs/sway"@);
    assert(BANNED_REPOS@[6]@ == "FuelLabs/fuel-core"@);
    assert(BANNED_REPOS@[7]@ == "google/comprehensive-rust"@);
    assert(BANNED_REPOS@[8]@ == "sunface/rust-course"@);
    assert(BANNED_REPOS@[9]@ == "copy/v86"@);
    assert(BANNED_REPOS@[10]@ == "facebook/relay"@);
    assert(BANNED_REPOS@[11]@ == "TheAlgorithms/Rust"@);
    assert(BANNED_REPOS@[12]@ == "diem/diem"@);
    assert(BANNED_REPOS@[13]@ == "FuelLabs/fuels-rs"@);
    assert(BANNED_REPOS@[14]@ == "rust-lang/book"@);
    assert(BANNED_REPOS@[15]@ == "analysis-tools-dev/static-analysis"@);
    assert(BANNED_REPOS@[16]@ == "solana-labs/solana"@);
    assert(BANNED_REPOS@[17]@ == "pingcap/talent-plan"@);
    assert(BANNED_REPOS@[18]@ == "jauhien/iron-kaleidoscope"@);
    assert(BANNED_REPOS@[19]@ == "sunface/rust-by-practice"@);
    assert(BANNED_REPOS@[20]@ == "paritytech/polkadot"@);
    assert(BANNED_REPOS@[21]@ == "openethereum/parity-ethereum"@);
    assert(BANNED_REPOS@[22]@ == "Reamd7/notion-zh_CN"@);
    assert(BANNED_REPOS@[23]@ == "pretzelhammer/rust-blog"@);
    assert(BANNED_REPOS@[24]@ == "aptos-labs/aptos-core"@);
    assert(BANNED_REPOS@[25]@ == "MystenLabs/sui"@);
    assert(BANNED_REPOS@[26]@ == "facebook/sapling"@);
    assert(BANNED_REPOS@[27]@ == "utilForever/game-developer-roadmap"@);
    assert(BANNED_REPOS@[28]@ == "mimblewimble/grin"@);
    assert(BANNED_REPOS@[29]@ == "crablang/crab"@);
    assert(BANNED_REPOS@[30]@ == "rust-embedded/rust-raspberrypi-OS-tutorials"@);
    assert(BANNED_REPOS@[31]@ == "flosse/rust-web-framework-comparison"@);
    assert(BANNED_REPOS@[32]@ == "headwindsim/A339X"@);
    assert(BANNED_REPOS@[33]@ == "EvilGenius-dot/RustMinerSystem"@);
    assert(BANNED_REPOS@[34]@ == "a137x/plutus-rustus"@);
    assert(BANNED_REPOS@[35]@ == "NodleCode/chain"@);
    assert(BANNED_REPOS@[36]@ == "parity-asia/hackathon-2021-spring"@);
    assert(BANNED_REPOS@[37]@ == "DaZiYuan/livewallpaper"@);
    assert(BANNED_REPOS@[38]@ == "dfinity/internet-identity"@);
    assert(BANNED_REPOS@[39]@ == "paritytech/polkadot-sdk"@);
    assert(BANNED_REPOS@[40]@ == "reison1218/GameServer_Rust"@);
    assert(BANNED_REPOS@[41]@ == "LayerXcom/zero-chain"@);
    assert(BANNED_REPOS@[42]@ == "ravenclaw900/DietPi-Dashboard"@);
    assert(BANNED_REPOS@[43]@ == "tyrchen/rust-training"@);
    assert(BANNED_REPOS@[44]@ == "parity-asia/hackathon-2023-summer"@);
    assert(BANNED_REPOS@[45]@ == "second-state/wasm-learning"@);
    assert(BANNED_REPOS@[46]@ == "standardweb3/standard-substrate"@);
    assert(BANNED_REPOS@[47]@ == "linera-io/linera-protocol"@);
    assert(BANNED_REPOS@[48]@ == "mkb2091/blockconvert"@);
    assert(BANNED_REPOS@[49]@ == "HorizenOfficial/zendoo-sc-cryptolib"@);
    assert(BANNED_REPOS@[50]@ == "MadrigalStreetCartel/neuz"@);
    assert(BANNED_REPOS@[51]@ == "dashpay/platform"@);
}

} // verus!

//! Why a run ends early, and what the user is told to do about it.
//!
//! Every failure that ends a run is shown with one line that says what is
//! wrong and one that says how to mend it. The screen is 50 columns wide,
//! so no explanation is longer than that.

use crate::validate::{FormatCheck, FormatMismatch, StructureKind};
use vstd::prelude::*;
use vstd::string::StringExecFns;

verus! {

/// Width of the text console, in characters.
pub const SCREEN_COLUMNS: usize = 50;

/// The run was ended by the user after a failure was shown.
#[derive(Clone, Copy, Debug, PartialEq, Eq, Structural)]
pub struct AbortProgram;

impl AbortProgram {
    /// What the error says of itself, as one line.
    pub fn message(&self) -> (r: String)
        ensures
            r@ == "Program execution aborted\n"@,
    {
        String::from_str("Program execution aborted\n")
    }
}

/// The remedies that the user can be pointed to.
#[derive(Clone, Copy, Debug, PartialEq, Eq, Structural)]
pub enum HowFix {
    Update,
    RunMenu,
    Autoboot,
    CtrIconFolder,
}

impl HowFix {
    /// The sentence that tells the user what to do.
    pub open spec fn spec_instruction(self) -> Seq<char> {
        match self {
            HowFix::Update => "Update your console, run the home menu and then try again"@,
            HowFix::RunMenu => "Run the home menu and then try again"@,
            HowFix::Autoboot => "Make sure to run this on autoboot mode (enable in Luma settings)"@,
            HowFix::CtrIconFolder => {
                "Make the folder and store the icons you want to install there"@
            },
        }
    }

    /// The sentence that tells the user what to do.
    pub fn instruction(&self) -> (r: &'static str)
        ensures
            r@ == self.spec_instruction(),
    {
        match self {
            HowFix::Update => "Update your console, run the home menu and then try again",
            HowFix::RunMenu => "Run the home menu and then try again",
            HowFix::Autoboot => "Make sure to run this on autoboot mode (enable in Luma settings)",
            HowFix::CtrIconFolder => {
                "Make the folder and store the icons you want to install there"
            },
        }
    }

    /// The instruction as it is shown: the sentence and a line break.
    pub fn message(&self) -> (r: String)
        ensures
            r@ == self.spec_instruction() + "\n"@,
    {
        let mut s = String::from_str(self.instruction());
        s.append("\n");
        s
    }
}

/// The failures that end a run.
#[derive(Clone, Copy, Debug, PartialEq, Eq, Structural)]
pub enum AbortReason {
    /// No extended-data archive of the home menu could be opened.
    NoExtdata,
    /// The save table or the cache index could not be opened.
    HomeMenuFiles,
    /// The icon atlas could not be opened.
    IconCacheInUse,
    /// The save table is not of its fixed size.
    SaveDataSize,
    /// The cache index is not of its fixed size.
    CacheDatSize,
    /// The icon atlas is not of its fixed size.
    CacheDDatSize,
    /// The save table's version is too old.
    SaveDataVersion,
    /// The folder of icon files could not be opened.
    IconFolder,
}

impl AbortReason {
    /// The line that says what is wrong.
    pub open spec fn spec_explain(self) -> Seq<char> {
        match self {
            AbortReason::NoExtdata => "No Home Menu extra data could be found!"@,
            AbortReason::HomeMenuFiles => "Something seems to be wrong with your Home Menu!"@,
            AbortReason::IconCacheInUse => "Couldn't load the icon cache - likely in use"@,
            AbortReason::SaveDataSize => "/SaveData.dat is the wrong size!"@,
            AbortReason::CacheDatSize => "/Cache.dat is the wrong size!"@,
            AbortReason::CacheDDatSize => "/CacheD.dat is the wrong size!"@,
            AbortReason::SaveDataVersion => "Outdated /Savedata.dat version!"@,
            AbortReason::IconFolder => "Couldn't open /3ds/ctricon-install folder!"@,
        }
    }

    /// The remedy that goes with the failure.
    pub open spec fn spec_how_fix(self) -> HowFix {
        match self {
            AbortReason::NoExtdata => HowFix::RunMenu,
            AbortReason::HomeMenuFiles => HowFix::RunMenu,
            AbortReason::IconCacheInUse => HowFix::Autoboot,
            AbortReason::SaveDataSize => HowFix::Update,
            AbortReason::CacheDatSize => HowFix::RunMenu,
            AbortReason::CacheDDatSize => HowFix::RunMenu,
            AbortReason::SaveDataVersion => HowFix::Update,
            AbortReason::IconFolder => HowFix::CtrIconFolder,
        }
    }

    /// The failure that a failed format check stands for.
    pub open spec fn spec_of_format_mismatch(mismatch: FormatMismatch) -> AbortReason {
        match mismatch.check {
            FormatCheck::Size(StructureKind::SaveData) => AbortReason::SaveDataSize,
            FormatCheck::Size(StructureKind::CacheDat) => AbortReason::CacheDatSize,
            FormatCheck::Size(StructureKind::CacheDDat) => AbortReason::CacheDDatSize,
            FormatCheck::Size(StructureKind::Icon) => AbortReason::CacheDDatSize,
            FormatCheck::Version => AbortReason::SaveDataVersion,
        }
    }

    /// The line that says what is wrong. It fits the screen.
    pub fn explain(&self) -> (r: &'static str)
        ensures
            r@ == self.spec_explain(),
            r@.len() <= SCREEN_COLUMNS,
    {
        proof {
            reveal_strlit("No Home Menu extra data could be found!");
            reveal_strlit("Something seems to be wrong with your Home Menu!");
            reveal_strlit("Couldn't load the icon cache - likely in use");
            reveal_strlit("/SaveData.dat is the wrong size!");
            reveal_strlit("/Cache.dat is the wrong size!");
            reveal_strlit("/CacheD.dat is the wrong size!");
            reveal_strlit("Outdated /Savedata.dat version!");
            reveal_strlit("Couldn't open /3ds/ctricon-install folder!");
        }
        match self {
            AbortReason::NoExtdata => "No Home Menu extra data could be found!",
            AbortReason::HomeMenuFiles => "Something seems to be wrong with your Home Menu!",
            AbortReason::IconCacheInUse => "Couldn't load the icon cache - likely in use",
            AbortReason::SaveDataSize => "/SaveData.dat is the wrong size!",
            AbortReason::CacheDatSize => "/Cache.dat is the wrong size!",
            AbortReason::CacheDDatSize => "/CacheD.dat is the wrong size!",
            AbortReason::SaveDataVersion => "Outdated /Savedata.dat version!",
            AbortReason::IconFolder => "Couldn't open /3ds/ctricon-install folder!",
        }
    }

    /// The remedy that goes with the failure.
    pub fn how_fix(&self) -> (r: HowFix)
        ensures
            r == self.spec_how_fix(),
    {
        match self {
            AbortReason::NoExtdata => HowFix::RunMenu,
            AbortReason::HomeMenuFiles => HowFix::RunMenu,
            AbortReason::IconCacheInUse => HowFix::Autoboot,
            AbortReason::SaveDataSize => HowFix::Update,
            AbortReason::CacheDatSize => HowFix::RunMenu,
            AbortReason::CacheDDatSize => HowFix::RunMenu,
            AbortReason::SaveDataVersion => HowFix::Update,
            AbortReason::IconFolder => HowFix::CtrIconFolder,
        }
    }

    /// The failure that a failed format check stands for: a wrong size of
    /// the file that was checked (an icon record counts for the atlas it is
    /// part of), or the outdated save table.
    pub fn of_format_mismatch(mismatch: &FormatMismatch) -> (r: AbortReason)
        ensures
            r == AbortReason::spec_of_format_mismatch(*mismatch),
    {
        match mismatch.check {
            FormatCheck::Size(StructureKind::SaveData) => AbortReason::SaveDataSize,
            FormatCheck::Size(StructureKind::CacheDat) => AbortReason::CacheDatSize,
            FormatCheck::Size(StructureKind::CacheDDat) => AbortReason::CacheDDatSize,
            FormatCheck::Size(StructureKind::Icon) => AbortReason::CacheDDatSize,
            FormatCheck::Version => AbortReason::SaveDataVersion,
        }
    }
}

/// A wrong size or an old version is mended by an update where the save
/// table is concerned, and by running the home menu otherwise.
pub proof fn lemma_format_mismatch_remedy(mismatch: FormatMismatch)
    ensures
        AbortReason::spec_of_format_mismatch(mismatch).spec_how_fix() == (match mismatch.check {
            FormatCheck::Size(StructureKind::SaveData) => HowFix::Update,
            FormatCheck::Version => HowFix::Update,
            _ => HowFix::RunMenu,
        }),
{
}

} // verus!

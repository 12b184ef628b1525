//! The preferences window: its tabs.

use vstd::prelude::*;

verus! {

/// Tab categories for preferences.
#[derive(Debug, Clone, Copy, PartialEq, Eq, Structural)]
pub enum PreferencesTab {
    General,
    Appearance,
    Terminal,
    FileTree,
    Advanced,
}

impl PreferencesTab {
    /// The label of each tab.
    pub open spec fn label_text(self) -> Seq<char> {
        match self {
            PreferencesTab::General => "General"@,
            PreferencesTab::Appearance => "Appearance"@,
            PreferencesTab::Terminal => "Terminal"@,
            PreferencesTab::FileTree => "File Tree"@,
            PreferencesTab::Advanced => "Advanced"@,
        }
    }

    pub fn label(&self) -> (text: &'static str)
        ensures
            text@ == self.label_text(),
    {
        match self {
            PreferencesTab::General => "General",
            PreferencesTab::Appearance => "Appearance",
            PreferencesTab::Terminal => "Terminal",
            PreferencesTab::FileTree => "File Tree",
            PreferencesTab::Advanced => "Advanced",
        }
    }

    /// All tabs, in the order in which the window lists them.
    pub fn all() -> (tabs: Vec<PreferencesTab>)
        ensures
            tabs@ == seq![
                PreferencesTab::General,
                PreferencesTab::Appearance,
                PreferencesTab::Terminal,
                PreferencesTab::FileTree,
                PreferencesTab::Advanced,
            ],
    {
        let mut tabs = Vec::new();
        tabs.push(PreferencesTab::General);
        tabs.push(PreferencesTab::Appearance);
        tabs.push(PreferencesTab::Terminal);
        tabs.push(PreferencesTab::FileTree);
        tabs.push(PreferencesTab::Advanced);
        assert(tabs@ =~= seq![
            PreferencesTab::General,
            PreferencesTab::Appearance,
            PreferencesTab::Terminal,
            PreferencesTab::FileTree,
            PreferencesTab::Advanced,
        ]);
        tabs
    }
}

} // verus!

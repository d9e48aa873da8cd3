//! The items of the vertical tabs header toolbar: their labels, icons,
//! default placement and availability.
use vstd::prelude::*;

verus! {

/// The icons that toolbar items show.
#[derive(Clone, Copy, Debug, PartialEq, Eq, Structural, Hash)]
pub enum Icon {
    Menu,
    Tool2,
    Grid,
    Diff,
    Inbox,
}

/// A configurable item in the vertical tabs header toolbar.
///
/// Each variant is a panel toggle button that can be placed on either the
/// left or the right side of the toolbar; the side decides on which side of
/// the main content area the panel opens.
#[derive(Clone, Debug, PartialEq, Eq, Structural, Hash)]
pub enum HeaderToolbarItemKind {
    TabsPanel,
    ToolsPanel,
    AgentManagement,
    CodeReview,
    NotificationsMailbox,
}

pub open spec fn label_text(k: HeaderToolbarItemKind) -> Seq<char> {
    match k {
        HeaderToolbarItemKind::TabsPanel => "Tabs Panel"@,
        HeaderToolbarItemKind::ToolsPanel => "Tools Panel"@,
        HeaderToolbarItemKind::AgentManagement => "Agent Management"@,
        HeaderToolbarItemKind::CodeReview => "Code Review"@,
        HeaderToolbarItemKind::NotificationsMailbox => "Notifications"@,
    }
}

pub open spec fn icon_of(k: HeaderToolbarItemKind) -> Icon {
    match k {
        HeaderToolbarItemKind::TabsPanel => Icon::Menu,
        HeaderToolbarItemKind::ToolsPanel => Icon::Tool2,
        HeaderToolbarItemKind::AgentManagement => Icon::Grid,
        HeaderToolbarItemKind::CodeReview => Icon::Diff,
        HeaderToolbarItemKind::NotificationsMailbox => Icon::Inbox,
    }
}

/// Only the tabs panel can be supported, and only while vertical tabs are
/// both enabled as a feature and chosen in the tab settings.
pub open spec fn supported(k: HeaderToolbarItemKind, vertical_tabs_flag: bool, use_vertical_tabs: bool) -> bool {
    k == HeaderToolbarItemKind::TabsPanel && vertical_tabs_flag && use_vertical_tabs
}

pub open spec fn default_left_items() -> Seq<HeaderToolbarItemKind> {
    seq![HeaderToolbarItemKind::TabsPanel, HeaderToolbarItemKind::AgentManagement]
}

pub open spec fn default_right_items() -> Seq<HeaderToolbarItemKind> {
    seq![HeaderToolbarItemKind::CodeReview, HeaderToolbarItemKind::NotificationsMailbox]
}

pub open spec fn all_kinds() -> Seq<HeaderToolbarItemKind> {
    seq![
        HeaderToolbarItemKind::TabsPanel,
        HeaderToolbarItemKind::ToolsPanel,
        HeaderToolbarItemKind::AgentManagement,
        HeaderToolbarItemKind::CodeReview,
        HeaderToolbarItemKind::NotificationsMailbox,
    ]
}

impl HeaderToolbarItemKind {
    pub fn display_label(&self) -> (r: &'static str)
        ensures
            r@ == label_text(*self),
    {
        match self {
            HeaderToolbarItemKind::TabsPanel => "Tabs Panel",
            HeaderToolbarItemKind::ToolsPanel => "Tools Panel",
            HeaderToolbarItemKind::AgentManagement => "Agent Management",
            HeaderToolbarItemKind::CodeReview => "Code Review",
            HeaderToolbarItemKind::NotificationsMailbox => "Notifications",
        }
    }

    pub fn icon(&self) -> (r: Icon)
        ensures
            r == icon_of(*self),
    {
        match self {
            HeaderToolbarItemKind::TabsPanel => Icon::Menu,
            HeaderToolbarItemKind::ToolsPanel => Icon::Tool2,
            HeaderToolbarItemKind::AgentManagement => Icon::Grid,
            HeaderToolbarItemKind::CodeReview => Icon::Diff,
            HeaderToolbarItemKind::NotificationsMailbox => Icon::Inbox,
        }
    }

    /// Whether this item is supported in the current configuration; the
    /// caller reads the vertical-tabs feature flag and tab setting.
    /// User show/hide preferences are not consulted.
    pub fn is_supported(&self, vertical_tabs_flag: bool, use_vertical_tabs: bool) -> (r: bool)
        ensures
            r == supported(*self, vertical_tabs_flag, use_vertical_tabs),
    {
        match self {
            HeaderToolbarItemKind::TabsPanel => vertical_tabs_flag && use_vertical_tabs,
            HeaderToolbarItemKind::ToolsPanel => false,
            HeaderToolbarItemKind::AgentManagement | HeaderToolbarItemKind::CodeReview
            | HeaderToolbarItemKind::NotificationsMailbox => false,
        }
    }

    /// Whether this item should be shown in the toolbar: no preference
    /// hides a supported item.
    pub fn is_available(&self, vertical_tabs_flag: bool, use_vertical_tabs: bool) -> (r: bool)
        ensures
            r == supported(*self, vertical_tabs_flag, use_vertical_tabs),
    {
        self.is_supported(vertical_tabs_flag, use_vertical_tabs)
    }

    /// Whether this item opens a side panel (as opposed to replacing the
    /// content area or opening a popover).
    pub fn is_panel(&self) -> (r: bool)
        ensures
            r == (*self == HeaderToolbarItemKind::TabsPanel || *self
                == HeaderToolbarItemKind::CodeReview),
    {
        match self {
            HeaderToolbarItemKind::TabsPanel | HeaderToolbarItemKind::CodeReview => true,
            _ => false,
        }
    }

    pub fn default_left() -> (r: Vec<Self>)
        ensures
            r@ == default_left_items(),
    {
        let mut v: Vec<Self> = Vec::new();
        v.push(HeaderToolbarItemKind::TabsPanel);
        v.push(HeaderToolbarItemKind::AgentManagement);
        proof {
            assert(v@ =~= default_left_items());
        }
        v
    }

    pub fn default_right() -> (r: Vec<Self>)
        ensures
            r@ == default_right_items(),
    {
        let mut v: Vec<Self> = Vec::new();
        v.push(HeaderToolbarItemKind::CodeReview);
        v.push(HeaderToolbarItemKind::NotificationsMailbox);
        proof {
            assert(v@ =~= default_right_items());
        }
        v
    }

    /// All toolbar item variants (availability filtering is done at the
    /// call site).
    pub fn all_items() -> (r: Vec<Self>)
        ensures
            r@ == all_kinds(),
    {
        let mut v: Vec<Self> = Vec::new();
        v.push(HeaderToolbarItemKind::TabsPanel);
        v.push(HeaderToolbarItemKind::ToolsPanel);
        v.push(HeaderToolbarItemKind::AgentManagement);
        v.push(HeaderToolbarItemKind::CodeReview);
        v.push(HeaderToolbarItemKind::NotificationsMailbox);
        proof {
            assert(v@ =~= all_kinds());
        }
        v
    }
}

/// `all_items` lists every kind of toolbar item, each exactly once.
pub proof fn all_items_lists_each_kind_once(k: HeaderToolbarItemKind)
    ensures
        all_kinds().contains(k),
        all_kinds().no_duplicates(),
{
    match k {
        HeaderToolbarItemKind::TabsPanel => assert(all_kinds()[0] == k),
        HeaderToolbarItemKind::ToolsPanel => assert(all_kinds()[1] == k),
        HeaderToolbarItemKind::AgentManagement => assert(all_kinds()[2] == k),
        HeaderToolbarItemKind::CodeReview => assert(all_kinds()[3] == k),
        HeaderToolbarItemKind::NotificationsMailbox => assert(all_kinds()[4] == k),
    }
}

/// The default left and right sides never share an item, and every
/// default item is one of `all_items`.
pub proof fn default_sides_are_disjoint(k: HeaderToolbarItemKind)
    ensures
        !(default_left_items().contains(k) && default_right_items().contains(k)),
        default_left_items().contains(k) ==> all_kinds().contains(k),
        default_right_items().contains(k) ==> all_kinds().contains(k),
{
    all_items_lists_each_kind_once(k);
}

} // verus!

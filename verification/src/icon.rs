//! Icon names and the paths of their images.

use crate::utf::append;
use vstd::prelude::*;

verus! {

/// The icons that ship with the library.
#[derive(Debug, Clone, Copy, PartialEq, Eq, Structural)]
pub enum IconName {
    ALargeSmall,
    ArrowDown,
    ArrowLeft,
    ArrowRight,
    ArrowUp,
    Asterisk,
    Bell,
    BookOpen,
    Bot,
    Calendar,
    ChartPie,
    Check,
    ChevronDown,
    ChevronLeft,
    ChevronRight,
    ChevronUp,
    ChevronsUpDown,
    CircleCheck,
    CircleUser,
    CircleX,
    Close,
    Copy,
    Dash,
    Delete,
    Ellipsis,
    EllipsisVertical,
    Eye,
    EyeOff,
    Frame,
    GalleryVerticalEnd,
    GitHub,
    Globe,
    Heart,
    HeartOff,
    Inbox,
    Info,
    LayoutDashboard,
    Loader,
    LoaderCircle,
    MapIcon,
    Maximize,
    Menu,
    Minimize,
    Minus,
    Moon,
    Palette,
    PanelBottom,
    PanelBottomOpen,
    PanelLeft,
    PanelLeftClose,
    PanelLeftOpen,
    PanelRight,
    PanelRightClose,
    PanelRightOpen,
    Plus,
    Search,
    Settings,
    Settings2,
    SortAscending,
    SortDescending,
    SquareTerminal,
    Star,
    StarOff,
    Sun,
    ThumbsDown,
    ThumbsUp,
    TriangleAlert,
    WindowClose,
    WindowMaximize,
    WindowMinimize,
    WindowRestore,
}

/// The file name of an icon's image, without its folder and extension.
pub open spec fn icon_stem(name: IconName) -> Seq<char> {
    match name {
        IconName::ALargeSmall => "a-large-small"@,
        IconName::ArrowDown => "arrow-down"@,
        IconName::ArrowLeft => "arrow-left"@,
        IconName::ArrowRight => "arrow-right"@,
        IconName::ArrowUp => "arrow-up"@,
        IconName::Asterisk => "asterisk"@,
        IconName::Bell => "bell"@,
        IconName::BookOpen => "book-open"@,
        IconName::Bot => "bot"@,
        IconName::Calendar => "calendar"@,
        IconName::ChartPie => "chart-pie"@,
        IconName::Check => "check"@,
        IconName::ChevronDown => "chevron-down"@,
        IconName::ChevronLeft => "chevron-left"@,
        IconName::ChevronRight => "chevron-right"@,
        IconName::ChevronUp => "chevron-up"@,
        IconName::ChevronsUpDown => "chevrons-up-down"@,
        IconName::CircleCheck => "circle-check"@,
        IconName::CircleUser => "circle-user"@,
        IconName::CircleX => "circle-x"@,
        IconName::Close => "close"@,
        IconName::Copy => "copy"@,
        IconName::Dash => "dash"@,
        IconName::Delete => "delete"@,
        IconName::Ellipsis => "ellipsis"@,
        IconName::EllipsisVertical => "ellipsis-vertical"@,
        IconName::Eye => "eye"@,
        IconName::EyeOff => "eye-off"@,
        IconName::Frame => "frame"@,
        IconName::GalleryVerticalEnd => "gallery-vertical-end"@,
        IconName::GitHub => "github"@,
        IconName::Globe => "globe"@,
        IconName::Heart => "heart"@,
        IconName::HeartOff => "heart-off"@,
        IconName::Inbox => "inbox"@,
        IconName::Info => "info"@,
        IconName::LayoutDashboard => "layout-dashboard"@,
        IconName::Loader => "loader"@,
        IconName::LoaderCircle => "loader-circle"@,
        IconName::MapIcon => "map"@,
        IconName::Maximize => "maximize"@,
        IconName::Menu => "menu"@,
        IconName::Minimize => "minimize"@,
        IconName::Minus => "minus"@,
        IconName::Moon => "moon"@,
        IconName::Palette => "palette"@,
        IconName::PanelBottom => "panel-bottom"@,
        IconName::PanelBottomOpen => "panel-bottom-open"@,
        IconName::PanelLeft => "panel-left"@,
        IconName::PanelLeftClose => "panel-left-close"@,
        IconName::PanelLeftOpen => "panel-left-open"@,
        IconName::PanelRight => "panel-right"@,
        IconName::PanelRightClose => "panel-right-close"@,
        IconName::PanelRightOpen => "panel-right-open"@,
        IconName::Plus => "plus"@,
        IconName::Search => "search"@,
        IconName::Settings => "settings"@,
        IconName::Settings2 => "settings-2"@,
        IconName::SortAscending => "sort-ascending"@,
        IconName::SortDescending => "sort-descending"@,
        IconName::SquareTerminal => "square-terminal"@,
        IconName::Star => "star"@,
        IconName::StarOff => "star-off"@,
        IconName::Sun => "sun"@,
        IconName::ThumbsDown => "thumbs-down"@,
        IconName::ThumbsUp => "thumbs-up"@,
        IconName::TriangleAlert => "triangle-alert"@,
        IconName::WindowClose => "window-close"@,
        IconName::WindowMaximize => "window-maximize"@,
        IconName::WindowMinimize => "window-minimize"@,
        IconName::WindowRestore => "window-restore"@,
    }
}

impl IconName {
    /// The file name of the icon's image, without folder and extension.
    pub fn stem(self) -> (r: &'static str)
        ensures
            r@ == icon_stem(self),
    {
        match self {
            IconName::ALargeSmall => "a-large-small",
            IconName::ArrowDown => "arrow-down",
            IconName::ArrowLeft => "arrow-left",
            IconName::ArrowRight => "arrow-right",
            IconName::ArrowUp => "arrow-up",
            IconName::Asterisk => "asterisk",
            IconName::Bell => "bell",
            IconName::BookOpen => "book-open",
            IconName::Bot => "bot",
            IconName::Calendar => "calendar",
            IconName::ChartPie => "chart-pie",
            IconName::Check => "check",
            IconName::ChevronDown => "chevron-down",
            IconName::ChevronLeft => "chevron-left",
            IconName::ChevronRight => "chevron-right",
            IconName::ChevronUp => "chevron-up",
            IconName::ChevronsUpDown => "chevrons-up-down",
            IconName::CircleCheck => "circle-check",
            IconName::CircleUser => "circle-user",
            IconName::CircleX => "circle-x",
            IconName::Close => "close",
            IconName::Copy => "copy",
            IconName::Dash => "dash",
            IconName::Delete => "delete",
            IconName::Ellipsis => "ellipsis",
            IconName::EllipsisVertical => "ellipsis-vertical",
            IconName::Eye => "eye",
            IconName::EyeOff => "eye-off",
            IconName::Frame => "frame",
            IconName::GalleryVerticalEnd => "gallery-vertical-end",
            IconName::GitHub => "github",
            IconName::Globe => "globe",
            IconName::Heart => "heart",
            IconName::HeartOff => "heart-off",
            IconName::Inbox => "inbox",
            IconName::Info => "info",
            IconName::LayoutDashboard => "layout-dashboard",
            IconName::Loader => "loader",
            IconName::LoaderCircle => "loader-circle",
            IconName::MapIcon => "map",
            IconName::Maximize => "maximize",
            IconName::Menu => "menu",
            IconName::Minimize => "minimize",
            IconName::Minus => "minus",
            IconName::Moon => "moon",
            IconName::Palette => "palette",
            IconName::PanelBottom => "panel-bottom",
            IconName::PanelBottomOpen => "panel-bottom-open",
            IconName::PanelLeft => "panel-left",
            IconName::PanelLeftClose => "panel-left-close",
            IconName::PanelLeftOpen => "panel-left-open",
            IconName::PanelRight => "panel-right",
            IconName::PanelRightClose => "panel-right-close",
            IconName::PanelRightOpen => "panel-right-open",
            IconName::Plus => "plus",
            IconName::Search => "search",
            IconName::Settings => "settings",
            IconName::Settings2 => "settings-2",
            IconName::SortAscending => "sort-ascending",
            IconName::SortDescending => "sort-descending",
            IconName::SquareTerminal => "square-terminal",
            IconName::Star => "star",
            IconName::StarOff => "star-off",
            IconName::Sun => "sun",
            IconName::ThumbsDown => "thumbs-down",
            IconName::ThumbsUp => "thumbs-up",
            IconName::TriangleAlert => "triangle-alert",
            IconName::WindowClose => "window-close",
            IconName::WindowMaximize => "window-maximize",
            IconName::WindowMinimize => "window-minimize",
            IconName::WindowRestore => "window-restore",
        }
    }

    /// The path of the icon's image among the assets: `icons/`, the file
    /// name, then `.svg`.
    pub fn path(self) -> (r: String)
        ensures
            r@ == "icons/"@ + icon_stem(self) + ".svg"@,
    {
        let mut r = String::new();
        append(&mut r, "icons/");
        append(&mut r, self.stem());
        append(&mut r, ".svg");
        assert(r@ =~= "icons/"@ + icon_stem(self) + ".svg"@);
        r
    }
}

} // verus!

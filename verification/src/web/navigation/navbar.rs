//! Navbar: the top navigation bar.
use vstd::prelude::*;
use crate::web::{class_names, push_extra, spaced, strs, with_extra, Handler};

verus! {

/// A navigation link, with the links of its submenu.
pub struct NavLink {
    pub label: String,
    pub href: Option<String>,
    pub active: bool,
    pub icon: Option<String>,
    pub children: Vec<NavLink>,
}

/// Props for the Navbar component.
pub struct NavbarProps {
    pub logo: Option<String>,
    pub logo_text: Option<String>,
    pub links: Vec<NavLink>,
    pub actions: Option<String>,
    pub fixed: bool,
    pub transparent: bool,
    /// Called with the target of the link activated.
    pub on_link_click: Option<Box<dyn Handler<String>>>,
    pub class: Option<String>,
}

impl Default for NavbarProps {
    fn default() -> (r: Self)
        ensures
            r.logo is None,
            r.logo_text is None,
            r.links@.len() == 0,
            r.actions is None,
            !r.fixed,
            !r.transparent,
            r.on_link_click is None,
            r.class is None,
    {
        NavbarProps {
            logo: None,
            logo_text: None,
            links: Vec::new(),
            actions: None,
            fixed: false,
            transparent: false,
            on_link_click: None,
            class: None,
        }
    }
}

/// The Navbar component.
pub struct Navbar;

/// The base classes of a navbar.
pub open spec fn navbar_class_list(fixed: bool, transparent: bool) -> Seq<Seq<char>> {
    let base = seq!["domius-navbar"@];
    let with_fixed = if fixed { base.push("domius-navbar-fixed"@) } else { base };
    if transparent { with_fixed.push("domius-navbar-transparent"@) } else { with_fixed }
}

/// Class names of a navbar.
pub fn navbar_classes(fixed: bool, transparent: bool, class: &Option<String>) -> (r: String)
    ensures
        r@ == spaced(with_extra(navbar_class_list(fixed, transparent), *class)),
{
    let mut parts: Vec<String> = Vec::new();
    parts.push("domius-navbar".to_owned());
    if fixed {
        parts.push("domius-navbar-fixed".to_owned());
    }
    if transparent {
        parts.push("domius-navbar-transparent".to_owned());
    }
    assert(strs(parts@) =~= navbar_class_list(fixed, transparent));
    push_extra(&mut parts, class);
    class_names(&parts)
}

/// Whether the navbar shows a brand link: it has a logo or a logo text.
pub fn has_brand(props: &NavbarProps) -> (r: bool)
    ensures
        r == (props.logo is Some || props.logo_text is Some),
{
    props.logo.is_some() || props.logo_text.is_some()
}

/// The alternative text of the logo: the logo text, else "Home".
pub fn logo_alt(logo_text: &Option<String>) -> (r: String)
    ensures
        r@ == match logo_text {
            Some(t) => t@,
            None => "Home"@,
        },
{
    match logo_text {
        Some(t) => t.clone(),
        None => "Home".to_owned(),
    }
}

/// What a link's click reports: its href, else its label.
pub fn link_target(link: &NavLink) -> (r: String)
    ensures
        r@ == match link.href {
            Some(h) => h@,
            None => link.label@,
        },
{
    match &link.href {
        Some(h) => h.clone(),
        None => link.label.clone(),
    }
}

} // verus!

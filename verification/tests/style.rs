use rsact_ui::style::stylist::{InheritedStylist, Stylist};
use rsact_ui::style::{Style, StylePseudoClass, StyleSelector};

#[derive(Clone, Copy, Debug, PartialEq)]
struct Width(u32);

impl Style for Width {
    fn base() -> Self {
        Width(1)
    }
}

struct Double;

impl Stylist<Width> for Double {
    fn spec_style(&self, base: Width, selector: StyleSelector) -> Width {
        self.style(&base, &selector)
    }

    fn style(&self, base: &Width, _selector: &StyleSelector) -> Width {
        Width(base.0 * 2)
    }
}

struct AddWhenHovered(u32);

impl Stylist<Width> for AddWhenHovered {
    fn spec_style(&self, base: Width, selector: StyleSelector) -> Width {
        self.style(&base, &selector)
    }

    fn style(&self, base: &Width, selector: &StyleSelector) -> Width {
        if selector.pseudoclass.hovered {
            Width(base.0 + self.0)
        } else {
            *base
        }
    }
}

#[test]
fn inherited_stylist_applies_the_child_on_top_of_the_parent() {
    let hovered = StyleSelector {
        pseudoclass: StylePseudoClass { hovered: true, pressed: false, focused: false, active: false },
    };
    let idle = StyleSelector { pseudoclass: StylePseudoClass::default() };
    let parent_first = InheritedStylist::new(Double, AddWhenHovered(3));
    assert_eq!(parent_first.style(&Width::base(), &hovered), Width(5));
    assert_eq!(parent_first.style(&Width(10), &idle), Width(20));
    let child_first = InheritedStylist::new(AddWhenHovered(3), Double);
    assert_eq!(child_first.style(&Width::base(), &hovered), Width(8));
}

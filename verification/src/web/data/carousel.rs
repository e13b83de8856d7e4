//! Carousel: an image or content slider.
use vstd::prelude::*;
use crate::web::Handler;

verus! {

/// A single carousel item.
#[derive(Clone)]
pub struct CarouselItem {
    pub src: Option<String>,
    pub content: Option<String>,
    pub title: Option<String>,
    pub description: Option<String>,
}

/// Props for the Carousel component.
pub struct CarouselProps {
    pub items: Vec<CarouselItem>,
    pub autoplay: bool,
    pub interval: u64,
    pub show_arrows: bool,
    pub show_dots: bool,
    pub infinite: bool,
    pub on_change: Option<Box<dyn Handler<usize>>>,
    pub class: Option<String>,
}

impl Default for CarouselProps {
    fn default() -> (r: Self)
        ensures
            r.items@.len() == 0,
            !r.autoplay,
            r.interval == 5000,
            r.show_arrows,
            r.show_dots,
            r.infinite,
            r.on_change is None,
            r.class is None,
    {
        CarouselProps {
            items: Vec::new(),
            autoplay: false,
            interval: 5000,
            show_arrows: true,
            show_dots: true,
            infinite: true,
            on_change: None,
            class: None,
        }
    }
}

/// The Carousel component.
pub struct Carousel;

} // verus!

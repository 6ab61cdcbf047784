use gru::paint::TextSize;
use gru::ui::dynamic::{DynamicContent, Watch};
use gru::ui::event::MouseButton;
use gru::ui::interact::{ResponseState, WidgetState};
use gru::ui::layout::Empty;
use gru::ui::lens::{Lens, LensChain, LensExt, LensSlice, LensUnit};
use gru::ui::widget::{Maybe, Owning};
use gru::ui::EventCtx;

#[test]
fn request_update_sets_flag() {
    let mut flag = false;
    {
        let mut ctx = EventCtx::new(&mut flag);
        ctx.request_update();
    }
    assert!(flag);
}

#[test]
fn response_state_starts_cold() {
    let r = ResponseState::new();
    assert!(r.state == WidgetState::Cold);
    assert!(r.clicked.is_none());
    let clicked = Some(MouseButton::Secondary);
    assert!(clicked == Some(MouseButton::Secondary));
}

#[test]
fn slice_lens_reads_and_writes_one_element() {
    let mut data = vec![1u32, 2, 3];
    let lens = LensSlice(1);
    assert_eq!(lens.with(&data, |x| *x * 10), 20);
    lens.with_mut(&mut data, |x| *x = 7);
    assert_eq!(data, vec![1, 7, 3]);
}

#[test]
fn chained_lenses_reach_nested_element() {
    let mut data = vec![vec![1u32, 2], vec![3, 4]];
    let lens = LensSlice(1).chain(LensSlice(0));
    assert_eq!(lens.with(&data, |x| *x), 3);
    lens.with_mut(&mut data, |x| *x += 10);
    assert_eq!(data, vec![vec![1, 2], vec![13, 4]]);
    let same = LensChain::new(LensSlice(0), LensSlice(1));
    assert_eq!(same.with(&data, |x| *x), 2);
}

#[test]
fn unit_lens_shows_unit() {
    let data = 5u8;
    assert_eq!(LensUnit.with(&data, |u| *u == ()), true);
}

#[test]
fn watch_notices_changes_only() {
    let mut w: Watch<u32, Empty<u32>> = Watch::new(Empty::new());
    assert!(w.update(&3));
    assert!(!w.update(&3));
    assert!(w.update(&4));
    assert!(!w.update(&4));
}

#[test]
fn containers_build() {
    let _m: Maybe<u8, Empty<u8>, Empty<()>> = Maybe::new_empty(Empty::new());
    let _m2: Maybe<u8, Empty<u8>, Empty<()>> = Maybe::new(Empty::new(), Empty::new());
    let _o: Owning<(), u8, Empty<u8>> = Owning::new(Empty::new(), 3);
    let c: DynamicContent<Empty<u8>> = DynamicContent::Keep;
    assert!(matches!(c, DynamicContent::Keep));
}

#[test]
fn text_size_indices() {
    assert_eq!(TextSize::Small.i(), 0);
    assert_eq!(TextSize::Normal.i(), 1);
    assert_eq!(TextSize::Large.i(), 2);
}

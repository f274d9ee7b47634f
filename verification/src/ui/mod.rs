//! What the window shows and decides, apart from drawing it: the texts of
//! labels, which choice a row or toggle stands for, and what a click or a
//! close request leads to.

pub mod choices;
pub mod window;
pub mod panels;
pub mod desktop;

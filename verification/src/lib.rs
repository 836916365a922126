//! Report, checklist and referee-lens logic for manuscript review.
#![allow(unused_imports)]

pub mod text;
pub mod extract;
pub mod lens_sources;
pub mod risk;
pub mod criteria;
pub mod standards;
pub mod lines;
pub mod report;
pub mod journal;
pub mod statement;
pub mod checklist;
pub mod compliance;
pub mod inputs;
pub mod lens_checks;
pub mod collect;
pub mod review;
pub mod state_encoding;
pub mod research_state;
pub mod report_pdf;
pub mod report_compose;
pub mod report_html;
pub mod report_model;
pub mod report_layout;
pub mod reference_use;
pub mod grouping;
pub mod report_sections;

pub mod threat_board;
pub mod types;
pub mod vcf;
pub mod vct;

pub mod base_count_per_pos;
pub mod base_count_per_read;
pub mod base_qual_pos_stat;
pub mod gc_content;
pub mod gc_per_read;
pub mod nuc_table;
pub mod nucleotides;
pub mod phred_per_pos;
pub mod phred_per_read;
pub mod position_quality;
pub mod read_data;
pub mod read_qual_stat;
pub mod read_quality;

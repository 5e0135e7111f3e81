//! The common-word corpora: the 500 most frequent words of each
//! language, most frequent first, as the training pools draw on them.

use vstd::prelude::*;
use vstd::string::StringExecFns;

use crate::common_word_generator::{corpus_words, words_ok};

verus! {

/// The 500 most common English words, most frequent first.
pub fn english_words() -> (r: Vec<String>)
    ensures
        words_ok(r@),
{
    let corpus = String::new()
        .concat("the be to of and a in that have I it for not on with he as you do at this but his by from they ")
        .concat("we say her she or an will my one all would there their what so up out if about who get which go ")
        .concat("me when make can like time no just him know take people into year your good some could them see ")
        .concat("other than then now look only come its over think also back after use two how our work first ")
        .concat("well way even new want because any these give day most us is was are been has had were said did ")
        .concat("having may should am really more such here between own both down few those while never under ")
        .concat("same might must big high every number part question right small large next early young ")
        .concat("important public bad able across against along among around behind below beside during except ")
        .concat("inside near off since toward until upon within without again always often once sometimes ")
        .concat("together away everywhere where why yes water food house home school family friend mother father ")
        .concat("sister brother child woman man girl boy hand head eye face foot body heart life world country ")
        .concat("city street road door window room table chair bed book paper pen letter word name story music ")
        .concat("song picture color white black red blue green yellow brown light dark morning evening night ")
        .concat("week month hour minute second today tomorrow yesterday spring summer autumn winter north south ")
        .concat("east west left top bottom front side center end start middle place thing idea fact case point ")
        .concat("group problem company party money business service area war history result change reason ")
        .concat("example heat fire earth field forest garden grass tree flower animal dog cat bird fish horse ")
        .concat("farm sea river mountain stone sun moon star sky rain snow wind cloud weather air land sound ")
        .concat("voice noise power energy machine car train ship boat plane wheel engine office shop market ")
        .concat("store price value order list plan rule law government state nation member leader president king ")
        .concat("queen army police doctor nurse teacher student worker player driver writer artist actor singer ")
        .concat("game sport ball team goal match race run walk jump swim fly drive ride move stop turn open ")
        .concat("close push pull carry bring send find keep hold let put set read write draw paint sing dance ")
        .concat("play eat drink sleep wake rest sit stand wait watch listen hear feel touch smell taste speak ")
        .concat("talk tell ask answer call shout laugh smile cry hope wish love hate need try help learn teach ")
        .concat("study remember forget understand believe agree decide choose follow lead meet join leave arrive ")
        .concat("return travel visit stay live grow build break cut fill clean wash cook buy sell pay count ")
        .concat("measure weigh compare share divide add complete begin finish continue happen appear become seem ")
        .concat("remain fall rise raise drop catch throw kick hit win lose fight save spend lend borrow owe earn ")
        .concat("waste gather collect pick plant burn freeze melt boil dry wet warm ");
    corpus_words(corpus.as_str())
}

/// The 500 most common French words, most frequent first.
pub fn french_words() -> (r: Vec<String>)
    ensures
        words_ok(r@),
{
    let corpus = String::new()
        .concat("le la de un une et en que qui dans pour sur pas plus par mais ou si leur avec tout faire son ")
        .concat("mettre autre on ce il elle nous vous ils se ne les des au aux du cette ces mon ton notre votre ")
        .concat("mes tes ses nos vos comme aussi bien mal peu beaucoup trop assez moins encore jamais toujours ")
        .concat("souvent parfois ici ailleurs alors donc car parce pourtant cependant ensuite enfin avant apres ")
        .concat("pendant depuis vers chez entre sous sans contre selon malgre sauf quand comment pourquoi quoi ")
        .concat("dont lequel chaque quelque plusieurs certain tel quel rien personne chacun aucun nul etre avoir ")
        .concat("aller venir voir savoir pouvoir vouloir devoir falloir prendre donner trouver parler aimer ")
        .concat("passer porter montrer demander rester sembler laisser penser croire tenir devenir sentir sortir ")
        .concat("partir arriver entrer monter descendre tomber ouvrir fermer finir choisir grandir dormir courir ")
        .concat("mourir vivre suivre conduire construire produire traduire dire lire rire sourire boire plaire ")
        .concat("taire connaitre naitre paraitre permettre promettre battre vendre rendre attendre entendre ")
        .concat("perdre repondre homme femme enfant fille garcon pere mere frere ami gens monde pays ville ")
        .concat("village rue route maison porte chambre salle table chaise lit livre papier lettre mot nom ")
        .concat("histoire musique chanson image couleur blanc noir rouge bleu vert jaune brun clair sombre matin ")
        .concat("soir nuit jour semaine mois an heure minute seconde printemps hiver nord sud est ouest gauche ")
        .concat("droite haut bas devant centre fin debut milieu chose fait cas point groupe probleme raison ")
        .concat("exemple question travail argent affaire service guerre resultat changement eau feu terre champ ")
        .concat("bois jardin herbe arbre fleur animal chien chat oiseau poisson cheval ferme mer fleuve montagne ")
        .concat("pierre soleil lune ciel pluie neige vent nuage temps air voix bruit force energie machine ")
        .concat("voiture train bateau avion roue moteur bureau magasin marche prix valeur ordre liste plan regle ")
        .concat("loi etat nation membre chef roi reine armee police docteur maitre travailleur joueur conducteur ")
        .concat("artiste acteur chanteur jeu sport balle but course saut bain vol conduite arret tour repos ")
        .concat("place idee forme partie corps tete main pied bras jambe dos coeur sang peau bouche dent langue ")
        .concat("nez joue front cou ventre doigt ongle cheveu barbe robe manteau chapeau gant soulier poche ")
        .concat("bouton fil laine coton cuir verre fer or plomb sable sel sucre pain lait beurre fromage oeuf ")
        .concat("viande poulet legume fruit pomme poire prune raisin cerise fraise orange citron soupe huile vin ")
        .concat("biere cafe tasse assiette couteau cuillere nappe panier sac boite cle cloche corde echelle ")
        .concat("marteau clou aiguille ciseau balai savon serviette drap oreiller lampe bougie fumee flamme ")
        .concat("cendre charbon papillon abeille mouche fourmi araignee serpent souris lapin loup ours lion ")
        .concat("tigre singe vache cochon mouton chevre canard poule coq dinde pigeon corbeau aigle cygne ")
        .concat("grenouille tortue escargot coquille plume aile queue patte corne sabot museau griffe bec nid ")
        .concat("branche racine feuille tronc ecorce graine paille foin ble avoine orge riz pois haricot chou ")
        .concat("carotte oignon ail navet radis salade persil menthe rose lys violette marguerite muguet chene ")
        .concat("pin sapin peuplier saule bouleau erable frene ");
    corpus_words(corpus.as_str())
}

} // verus!
